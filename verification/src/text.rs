use vstd::prelude::*;
use vstd::std_specs::iter::IteratorSpec;
use vstd::string::*;

verus! {

/// The characters of a string slice, in order.
pub fn to_chars(s: &str) -> (v: Vec<char>)
    ensures
        v@ == s@,
{
    broadcast use {axiom_spec_iter, next_postcondition};

    let mut it = s.chars();
    let mut v: Vec<char> = Vec::new();
    loop
        invariant
            it.obeys_prophetic_iter_laws(),
            it.decrease() is Some,
            v@ + it.remaining() == s@,
        decreases it.decrease()->0,
    {
        let ghost before = it.remaining();
        match it.next() {
            Some(c) => {
                v.push(c);
                assert(v@ + it.remaining() =~= s@) by {
                    assert(before =~= seq![c] + it.remaining());
                }
            },
            None => {
                assert(v@ =~= s@);
                return v;
            },
        }
    }
}

/// True for the characters that count as white space: those that Unicode
/// marks `White_Space`.
pub open spec fn is_whitespace(c: char) -> bool {
    let n = c as u32;
    ||| 0x09 <= n <= 0x0d
    ||| n == 0x20
    ||| n == 0x85
    ||| n == 0xa0
    ||| n == 0x1680
    ||| 0x2000 <= n <= 0x200a
    ||| n == 0x2028
    ||| n == 0x2029
    ||| n == 0x202f
    ||| n == 0x205f
    ||| n == 0x3000
}

/// A text without the white space that it begins with.
pub open spec fn trim_start(s: Seq<char>) -> Seq<char>
    decreases s.len(),
{
    if s.len() > 0 && is_whitespace(s[0]) {
        trim_start(s.drop_first())
    } else {
        s
    }
}

/// A text without the white space that it ends with.
pub open spec fn trim_end(s: Seq<char>) -> Seq<char>
    decreases s.len(),
{
    if s.len() > 0 && is_whitespace(s.last()) {
        trim_end(s.drop_last())
    } else {
        s
    }
}

/// A text without the white space around it.
pub open spec fn trim(s: Seq<char>) -> Seq<char> {
    trim_end(trim_start(s))
}

/// The fields of a text that commas separate, in order. A text without a comma
/// is one field; two commas in a row hold an empty field between them.
pub open spec fn split_fields(s: Seq<char>) -> Seq<Seq<char>>
    decreases s.len(),
{
    if s.len() == 0 {
        seq![Seq::<char>::empty()]
    } else {
        let before = split_fields(s.drop_last());
        if s.last() == ',' {
            before.push(Seq::<char>::empty())
        } else {
            before.drop_last().push(before.last().push(s.last()))
        }
    }
}

/// True for `0`–`9`.
pub open spec fn is_digit(c: char) -> bool {
    '0' <= c <= '9'
}

/// True for a text of decimal digits only.
pub open spec fn all_digits(s: Seq<char>) -> bool {
    forall|i: int| 0 <= i < s.len() ==> is_digit(#[trigger] s[i])
}

/// The number that a text of decimal digits stands for.
pub open spec fn decimal_value(s: Seq<char>) -> int
    decreases s.len(),
{
    if s.len() == 0 {
        0
    } else {
        decimal_value(s.drop_last()) * 10 + (s.last() as int - 48)
    }
}

/// True for a text that begins with a sign: `+` where `minus` is false, `+` or
/// `-` where it is true.
pub open spec fn has_sign(s: Seq<char>, minus: bool) -> bool {
    s.len() > 0 && (s[0] == '+' || (minus && s[0] == '-'))
}

/// The digits of a numeric field: what follows its sign, where it has one.
pub open spec fn field_digits(s: Seq<char>, minus: bool) -> Seq<char> {
    if has_sign(s, minus) {
        s.drop_first()
    } else {
        s
    }
}

/// The number that an unsigned field stands for: an optional `+` and then at
/// least one decimal digit, with a value that fits `usize`. `None` for every
/// other text.
pub open spec fn unsigned_field(s: Seq<char>) -> Option<usize> {
    let digits = field_digits(s, false);
    if digits.len() > 0 && all_digits(digits) && decimal_value(digits) <= usize::MAX {
        Some(decimal_value(digits) as usize)
    } else {
        None
    }
}

/// The number that a signed 16-bit field stands for: an optional `+` or `-`
/// and then at least one decimal digit, with a value from -32768 to 32767.
/// `None` for every other text.
pub open spec fn signed_field(s: Seq<char>) -> Option<i16> {
    let digits = field_digits(s, true);
    let value = if s.len() > 0 && s[0] == '-' {
        -decimal_value(digits)
    } else {
        decimal_value(digits)
    };
    if digits.len() > 0 && all_digits(digits) && -32768 <= value <= 32767 {
        Some(value as i16)
    } else {
        None
    }
}

/// True for a text of white space only.
pub open spec fn all_whitespace(s: Seq<char>) -> bool {
    forall|i: int| 0 <= i < s.len() ==> is_whitespace(#[trigger] s[i])
}

/// The number of commas in a text.
pub open spec fn comma_count(s: Seq<char>) -> nat
    decreases s.len(),
{
    if s.len() == 0 {
        0
    } else if s.last() == ',' {
        comma_count(s.drop_last()) + 1
    } else {
        comma_count(s.drop_last())
    }
}

/// Fields put together again, with a comma between each two.
pub open spec fn join_fields(fields: Seq<Seq<char>>) -> Seq<char>
    decreases fields.len(),
{
    if fields.len() == 0 {
        Seq::<char>::empty()
    } else if fields.len() == 1 {
        fields[0]
    } else {
        join_fields(fields.drop_last()) + seq![','] + fields.last()
    }
}

/// Trimming at the start takes off white space and nothing else, and goes on
/// until the text is empty or begins with another character. The result is
/// what was taken off.
pub proof fn lemma_trim_start(s: Seq<char>) -> (taken: Seq<char>)
    ensures
        s == taken + trim_start(s),
        all_whitespace(taken),
        trim_start(s).len() > 0 ==> !is_whitespace(trim_start(s)[0]),
    decreases s.len(),
{
    if s.len() > 0 && is_whitespace(s[0]) {
        let rest = lemma_trim_start(s.drop_first());
        let taken = seq![s[0]] + rest;
        assert(trim_start(s) == trim_start(s.drop_first()));
        assert(s =~= seq![s[0]] + s.drop_first());
        assert(taken + trim_start(s) =~= seq![s[0]] + (rest + trim_start(s)));
        taken
    } else {
        let taken = Seq::<char>::empty();
        assert(s =~= taken + trim_start(s));
        taken
    }
}

/// Trimming at the end takes off white space and nothing else, and goes on
/// until the text is empty or ends with another character. The result is what
/// was taken off.
pub proof fn lemma_trim_end(s: Seq<char>) -> (taken: Seq<char>)
    ensures
        s == trim_end(s) + taken,
        all_whitespace(taken),
        trim_end(s).len() > 0 ==> !is_whitespace(trim_end(s).last()),
    decreases s.len(),
{
    if s.len() > 0 && is_whitespace(s.last()) {
        let rest = lemma_trim_end(s.drop_last());
        let taken = rest + seq![s.last()];
        assert(trim_end(s) == trim_end(s.drop_last()));
        assert(s =~= s.drop_last() + seq![s.last()]);
        assert(trim_end(s) + taken =~= (trim_end(s) + rest) + seq![s.last()]);
        taken
    } else {
        let taken = Seq::<char>::empty();
        assert(s =~= trim_end(s) + taken);
        taken
    }
}

/// Trimming takes white space off both ends and nothing else, and leaves a
/// text that neither begins nor ends with white space. The result is what was
/// taken off at the start and at the end.
pub proof fn lemma_trim(s: Seq<char>) -> (taken: (Seq<char>, Seq<char>))
    ensures
        s == taken.0 + trim(s) + taken.1,
        all_whitespace(taken.0),
        all_whitespace(taken.1),
        trim(s).len() > 0 ==> !is_whitespace(trim(s)[0]) && !is_whitespace(trim(s).last()),
{
    let before = lemma_trim_start(s);
    let after = lemma_trim_end(trim_start(s));
    assert(s =~= before + trim(s) + after);
    if trim(s).len() > 0 {
        assert(trim(s)[0] == trim_start(s)[0]);
    }
    (before, after)
}

/// Splitting loses nothing and leaves no comma: there is one field more than
/// there are commas, no field holds a comma, and the fields put together
/// again with commas are the text.
pub proof fn lemma_split_fields(s: Seq<char>)
    ensures
        split_fields(s).len() == comma_count(s) + 1,
        forall|k: int, i: int|
            0 <= k < split_fields(s).len() && 0 <= i < split_fields(s)[k].len() ==> #[trigger] split_fields(
                s,
            )[k][i] != ',',
        join_fields(split_fields(s)) == s,
    decreases s.len(),
{
    let fields = split_fields(s);
    if s.len() == 0 {
        assert(join_fields(fields) =~= s);
    } else {
        let shorter = s.drop_last();
        let before = split_fields(shorter);
        lemma_split_fields(shorter);
        if s.last() == ',' {
            assert(fields.drop_last() =~= before);
            assert(join_fields(fields) =~= s);
        } else {
            let grown = before.last().push(s.last());
            assert(fields.last() == grown);
            assert forall|k: int, i: int|
                0 <= k < fields.len() && 0 <= i < fields[k].len() implies #[trigger] fields[k][i]
                != ',' by {
                if k < fields.len() - 1 {
                    assert(fields[k] == before[k]);
                } else if i < before.last().len() {
                    assert(fields[k][i] == before.last()[i]);
                }
            }
            if before.len() == 1 {
                assert(join_fields(fields) =~= s);
            } else {
                assert(fields.drop_last() =~= before.drop_last());
                assert(join_fields(fields) =~= join_fields(before).push(s.last()));
                assert(join_fields(fields) =~= s);
            }
        }
    }
}

/// A text of digits stands for a number that is not negative.
pub proof fn lemma_decimal_nonnegative(s: Seq<char>)
    requires
        all_digits(s),
    ensures
        decimal_value(s) >= 0,
    decreases s.len(),
{
    if s.len() > 0 {
        assert(is_digit(s[s.len() - 1]));
        lemma_decimal_nonnegative(s.drop_last());
    }
}

/// Tells white space from other characters.
pub fn is_space(c: char) -> (r: bool)
    ensures
        r == is_whitespace(c),
{
    let n: u32 = c as u32;
    (0x09 <= n && n <= 0x0d) || n == 0x20 || n == 0x85 || n == 0xa0 || n == 0x1680 || (0x2000 <= n
        && n <= 0x200a) || n == 0x2028 || n == 0x2029 || n == 0x202f || n == 0x205f || n == 0x3000
}

/// Copies a text without the white space around it.
pub fn trimmed(text: &[char]) -> (r: Vec<char>)
    ensures
        r@ == trim(text@),
{
    let n = text.len();
    let mut a: usize = 0;
    assert(text@.subrange(0, n as int) =~= text@);
    while a < n && is_space(text[a])
        invariant
            n == text@.len(),
            a <= n,
            trim_start(text@) == trim_start(text@.subrange(a as int, n as int)),
        decreases n - a,
    {
        assert(text@.subrange(a as int, n as int).drop_first() =~= text@.subrange(
            a as int + 1,
            n as int,
        ));
        a += 1;
    }
    assert(trim_start(text@) == text@.subrange(a as int, n as int));
    let mut b: usize = n;
    while b > a && is_space(text[b - 1])
        invariant
            n == text@.len(),
            a <= b <= n,
            trim(text@) == trim_end(text@.subrange(a as int, b as int)),
        decreases b - a,
    {
        assert(text@.subrange(a as int, b as int).drop_last() =~= text@.subrange(
            a as int,
            b as int - 1,
        ));
        b -= 1;
    }
    assert(trim(text@) == text@.subrange(a as int, b as int));
    let mut r: Vec<char> = Vec::new();
    let mut i: usize = a;
    while i < b
        invariant
            n == text@.len(),
            a <= i <= b <= n,
            r@ == text@.subrange(a as int, i as int),
        decreases b - i,
    {
        r.push(text[i]);
        assert(r@ =~= text@.subrange(a as int, i as int + 1));
        i += 1;
    }
    r
}

/// Splits a text at its commas.
pub fn split(text: &[char]) -> (fields: Vec<Vec<char>>)
    ensures
        fields@.len() == split_fields(text@).len(),
        forall|k: int| 0 <= k < fields@.len() ==> (#[trigger] fields@[k])@ == split_fields(text@)[k],
{
    let n = text.len();
    let mut fields: Vec<Vec<char>> = Vec::new();
    let mut current: Vec<char> = Vec::new();
    let mut i: usize = 0;
    while i < n
        invariant
            n == text@.len(),
            i <= n,
            fields@.len() + 1 == split_fields(text@.subrange(0, i as int)).len(),
            forall|k: int|
                0 <= k < fields@.len() ==> (#[trigger] fields@[k])@ == split_fields(
                    text@.subrange(0, i as int),
                )[k],
            current@ == split_fields(text@.subrange(0, i as int)).last(),
        decreases n - i,
    {
        let c = text[i];
        proof {
            let longer = text@.subrange(0, i as int + 1);
            assert(longer.drop_last() =~= text@.subrange(0, i as int));
            assert(longer.last() == c);
        }
        if c == ',' {
            fields.push(current);
            current = Vec::new();
        } else {
            current.push(c);
        }
        i += 1;
    }
    fields.push(current);
    assert(text@.subrange(0, n as int) =~= text@);
    fields
}

/// Reads a run of decimal digits that starts at `start` and ends with the
/// text, and refuses a value above `limit`.
fn parse_digits(text: &[char], start: usize, limit: u64) -> (r: Option<u64>)
    requires
        start <= text@.len(),
    ensures
        ({
            let digits = text@.subrange(start as int, text@.len() as int);
            r == if digits.len() > 0 && all_digits(digits) && decimal_value(digits) <= limit {
                Some(decimal_value(digits) as u64)
            } else {
                None
            }
        }),
{
    let n = text.len();
    if start == n {
        return None;
    }
    let ghost digits = text@.subrange(start as int, n as int);
    let mut value: u128 = 0;
    let mut over = false;
    let mut i: usize = start;
    while i < n
        invariant
            n == text@.len(),
            start <= i <= n,
            digits == text@.subrange(start as int, n as int),
            all_digits(text@.subrange(start as int, i as int)),
            !over ==> value == decimal_value(text@.subrange(start as int, i as int)) && value
                <= limit,
            over ==> decimal_value(text@.subrange(start as int, i as int)) > limit,
        decreases n - i,
    {
        let c = text[i];
        let ghost shorter = text@.subrange(start as int, i as int);
        let ghost longer = text@.subrange(start as int, i as int + 1);
        proof {
            assert(longer.drop_last() =~= shorter);
            assert(longer.last() == c);
            assert(digits[i - start] == c);
        }
        if !(c >= '0' && c <= '9') {
            return None;
        }
        proof {
            assert forall|j: int| 0 <= j < longer.len() implies is_digit(#[trigger] longer[j]) by {
                if j < shorter.len() {
                    assert(longer[j] == shorter[j]);
                }
            }
            lemma_decimal_nonnegative(shorter);
        }
        if !over {
            let d: u128 = (c as u32 - 48) as u128;
            let next: u128 = value * 10 + d;
            if next > limit as u128 {
                over = true;
            } else {
                value = next;
            }
        }
        i += 1;
    }
    assert(text@.subrange(start as int, n as int) =~= digits);
    if over {
        None
    } else {
        Some(value as u64)
    }
}

/// Reads an unsigned decimal field.
pub fn parse_unsigned(text: &[char]) -> (r: Option<usize>)
    ensures
        r == unsigned_field(text@),
{
    let start: usize = if text.len() > 0 && text[0] == '+' {
        1
    } else {
        0
    };
    assert(text@.subrange(start as int, text@.len() as int) =~= field_digits(text@, false));
    proof {
        if all_digits(field_digits(text@, false)) {
            lemma_decimal_nonnegative(field_digits(text@, false));
        }
    }
    match parse_digits(text, start, usize::MAX as u64) {
        Some(v) => Some(v as usize),
        None => None,
    }
}

/// Reads a signed 16-bit decimal field.
pub fn parse_i16(text: &[char]) -> (r: Option<i16>)
    ensures
        r == signed_field(text@),
{
    let negative = text.len() > 0 && text[0] == '-';
    let start: usize = if text.len() > 0 && (text[0] == '+' || text[0] == '-') {
        1
    } else {
        0
    };
    assert(text@.subrange(start as int, text@.len() as int) =~= field_digits(text@, true));
    proof {
        if all_digits(field_digits(text@, true)) {
            lemma_decimal_nonnegative(field_digits(text@, true));
        }
    }
    if negative {
        match parse_digits(text, start, 32768) {
            Some(v) => Some((0 - v as i32) as i16),
            None => None,
        }
    } else {
        match parse_digits(text, start, 32767) {
            Some(v) => Some(v as i16),
            None => None,
        }
    }
}

} // verus!
