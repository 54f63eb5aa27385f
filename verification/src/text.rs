//! Text: comparison that ignores ASCII case, substrings, and decimal numbers.

use vstd::prelude::*;

verus! {

/// `String::push` of std appends one character to the end of the string.
pub assume_specification[ String::push ](s: &mut String, c: char)
    ensures
        final(s)@ == old(s)@.push(c),
;

/// The characters of a string, in order.
pub(crate) fn chars_of(s: &str) -> (chars: Vec<char>)
    ensures
        chars@ == s@,
{
    let mut chars: Vec<char> = Vec::new();
    for c in it: s.chars()
        invariant
            it.seq() == s@,
            chars@ == s@.take(it.index() as int),
    {
        chars.push(c);
    }
    chars
}

/// The models of strings.
pub open spec fn texts(strings: Seq<String>) -> Seq<Seq<char>> {
    strings.map_values(|s: String| s@)
}

/// Whether two strings are the same.
pub(crate) fn same_text(a: &str, b: &str) -> (same: bool)
    ensures
        same == (a@ == b@),
{
    same_chars(&chars_of(a), &chars_of(b))
}

/// An ASCII letter in lower case; any other character as it is.
pub open spec fn ascii_lower(c: char) -> char {
    if 'A' <= c <= 'Z' {
        (c as u32 + 32) as char
    } else {
        c
    }
}

/// A text with its ASCII letters in lower case.
pub open spec fn lowered(s: Seq<char>) -> Seq<char> {
    s.map_values(|c: char| ascii_lower(c))
}

/// Whether two texts are the same but for the case of ASCII letters.
pub open spec fn same_but_for_case(a: Seq<char>, b: Seq<char>) -> bool {
    lowered(a) == lowered(b)
}

/// Whether `part` occurs in `whole` at position `i`.
pub open spec fn occurs_at(part: Seq<char>, whole: Seq<char>, i: int) -> bool {
    0 <= i && i + part.len() <= whole.len() && whole.subrange(i, i + part.len()) == part
}

/// Whether `part` occurs in `whole`, without a gap.
pub open spec fn occurs_in(part: Seq<char>, whole: Seq<char>) -> bool {
    exists|i: int| occurs_at(part, whole, i)
}

/// The characters of a string, ASCII letters in lower case.
pub(crate) fn lowered_chars(s: &str) -> (chars: Vec<char>)
    ensures
        chars@ == lowered(s@),
{
    let source: Vec<char> = chars_of(s);
    let mut chars: Vec<char> = Vec::new();
    let mut i: usize = 0;
    while i < source.len()
        invariant
            source@ == s@,
            i <= source.len(),
            chars@ == lowered(s@.take(i as int)),
        decreases source.len() - i,
    {
        let c: char = source[i];
        assert(s@.take(i + 1) =~= s@.take(i as int).push(c));
        let l: char = if 'A' <= c && c <= 'Z' {
            (c as u8 + 32) as char
        } else {
            c
        };
        chars.push(l);
        assert(chars@ =~= lowered(s@.take(i + 1)));
        i = i + 1;
    }
    assert(s@.take(i as int) =~= s@);
    chars
}

/// Whether two strings are the same but for the case of ASCII letters.
pub fn eq_ignore_ascii_case(a: &str, b: &str) -> (same: bool)
    ensures
        same == same_but_for_case(a@, b@),
{
    same_chars(&lowered_chars(a), &lowered_chars(b))
}

fn same_chars(a: &Vec<char>, b: &Vec<char>) -> (same: bool)
    ensures
        same == (a@ == b@),
{
    if a.len() != b.len() {
        return false;
    }
    chars_at(b, a, 0)
}

/// Whether `part` occurs in `whole` at position `start`.
fn chars_at(part: &Vec<char>, whole: &Vec<char>, start: usize) -> (found: bool)
    requires
        start + part.len() <= whole.len(),
    ensures
        found == occurs_at(part@, whole@, start as int),
        start == 0 && part.len() == whole.len() ==> found == (part@ == whole@),
{
    let ghost window = whole@.subrange(start as int, start + part.len());
    let mut i: usize = 0;
    while i < part.len()
        invariant
            start + part.len() <= whole.len(),
            window == whole@.subrange(start as int, start + part.len()),
            i <= part.len(),
            forall|k: int| 0 <= k < i ==> window[k] == part[k],
        decreases part.len() - i,
    {
        if whole[start + i] != part[i] {
            assert(window[i as int] != part[i as int]);
            return false;
        }
        i = i + 1;
    }
    assert(window =~= part@);
    assert(start == 0 && part.len() == whole.len() ==> window =~= whole@);
    true
}

/// Whether `part` occurs in `whole`.
pub(crate) fn chars_in(part: &Vec<char>, whole: &Vec<char>) -> (found: bool)
    ensures
        found == occurs_in(part@, whole@),
{
    if part.len() > whole.len() {
        return false;
    }
    let last: usize = whole.len() - part.len();
    let mut i: usize = 0;
    while i < last
        invariant
            last + part.len() == whole.len(),
            i <= last,
            forall|k: int| 0 <= k < i ==> !occurs_at(part@, whole@, k),
        decreases last - i,
    {
        if chars_at(part, whole, i) {
            return true;
        }
        i = i + 1;
    }
    chars_at(part, whole, last)
}

/// Whether `part` occurs in `whole`.
pub fn contains_text(whole: &str, part: &str) -> (found: bool)
    ensures
        found == occurs_in(part@, whole@),
{
    chars_in(&chars_of(part), &chars_of(whole))
}

/// The character of a decimal digit.
pub open spec fn digit(d: nat) -> char
    recommends
        d < 10,
{
    ('0' as u32 + d) as char
}

/// The decimal notation of a number.
pub open spec fn decimal(n: nat) -> Seq<char>
    decreases n,
{
    if n < 10 {
        seq![digit(n)]
    } else {
        decimal(n / 10).push(digit(n % 10))
    }
}

/// The decimal notation of a number of either sign.
pub open spec fn decimal_int(v: int) -> Seq<char> {
    if v < 0 {
        seq!['-'] + decimal((-v) as nat)
    } else {
        decimal(v as nat)
    }
}

/// Appends a number in decimal notation.
pub(crate) fn push_decimal(out: &mut String, n: u64)
    ensures
        final(out)@ == old(out)@ + decimal(n as nat),
    decreases n,
{
    if n >= 10 {
        push_decimal(out, n / 10);
    }
    let d: u8 = (n % 10) as u8;
    out.push((48 + d) as char);
    assert(final(out)@ =~= old(out)@ + decimal(n as nat));
}

/// Appends a number of either sign in decimal notation.
pub(crate) fn push_decimal_int(out: &mut String, v: i32)
    ensures
        final(out)@ == old(out)@ + decimal_int(v as int),
{
    if v < 0 {
        out.push('-');
        push_decimal(out, (0 - v as i64) as u64);
        assert(final(out)@ =~= old(out)@ + decimal_int(v as int));
    } else {
        push_decimal(out, v as u64);
    }
}

/// Why a text is not a number.
#[derive(Debug, Clone, Copy, PartialEq, Eq, Structural)]
pub enum NumberError {
    /// There is no text.
    Empty,
    /// Something other than a digit follows an optional plus sign.
    InvalidDigit,
    /// The number is beyond the range of its type.
    TooLarge,
}

impl NumberError {
    pub open spec fn text(self) -> Seq<char> {
        match self {
            NumberError::Empty => "cannot parse integer from empty string"@,
            NumberError::InvalidDigit => "invalid digit found in string"@,
            NumberError::TooLarge => "number too large to fit in target type"@,
        }
    }

    /// What is wrong, in words.
    pub fn message(&self) -> (message: String)
        ensures
            message@ == self.text(),
    {
        match self {
            NumberError::Empty => "cannot parse integer from empty string".to_owned(),
            NumberError::InvalidDigit => "invalid digit found in string".to_owned(),
            NumberError::TooLarge => "number too large to fit in target type".to_owned(),
        }
    }
}

pub open spec fn is_digit(c: char) -> bool {
    '0' <= c <= '9'
}

/// The digits that a text begins with.
pub open spec fn leading_digits(s: Seq<char>) -> Seq<char>
    decreases s.len(),
{
    if s.len() > 0 && is_digit(s[0]) {
        seq![s[0]] + leading_digits(s.drop_first())
    } else {
        Seq::empty()
    }
}

/// The number that a text of digits stands for.
pub open spec fn number(digits: Seq<char>) -> nat
    decreases digits.len(),
{
    if digits.len() == 0 {
        0
    } else {
        number(digits.drop_last()) * 10 + (digits.last() as nat - '0' as nat) as nat
    }
}

/// A text without the plus sign that it begins with; a sign alone stays.
pub open spec fn unsigned_part(s: Seq<char>) -> Seq<char> {
    if s.len() > 1 && s[0] == '+' {
        s.drop_first()
    } else {
        s
    }
}

/// The number that a text stands for: an optional plus sign and then digits
/// only. A number that grows beyond `u32` is too large whatever follows.
pub open spec fn parsed_u32(s: Seq<char>) -> Result<u32, NumberError> {
    let digits = leading_digits(unsigned_part(s));
    if s.len() == 0 {
        Err(NumberError::Empty)
    } else if number(digits) > u32::MAX {
        Err(NumberError::TooLarge)
    } else if digits.len() < unsigned_part(s).len() {
        Err(NumberError::InvalidDigit)
    } else {
        Ok(number(digits) as u32)
    }
}

proof fn lemma_leading_digits(s: Seq<char>, n: int)
    requires
        0 <= n <= s.len(),
        forall|k: int| 0 <= k < n ==> is_digit(#[trigger] s[k]),
    ensures
        leading_digits(s).len() >= n,
        leading_digits(s).take(n) == s.take(n),
        n == s.len() || !is_digit(s[n]) ==> leading_digits(s) == s.take(n),
        leading_digits(s).len() <= s.len(),
        forall|k: int|
            0 <= k < leading_digits(s).len() ==> is_digit(#[trigger] leading_digits(s)[k]),
    decreases s.len(),
{
    let digits = leading_digits(s);
    if s.len() > 0 && is_digit(s[0]) {
        let rest = s.drop_first();
        let m = if n > 0 { n - 1 } else { 0 };
        assert forall|k: int| 0 <= k < m implies is_digit(#[trigger] rest[k]) by {
            assert(rest[k] == s[k + 1]);
        }
        lemma_leading_digits(rest, m);
        let tail = leading_digits(rest);
        assert(digits =~= seq![s[0]] + tail);
        if n > 0 {
            assert forall|k: int| 0 <= k < n implies digits[k] == s[k] by {
                if k > 0 {
                    assert(tail.take(m)[k - 1] == rest.take(m)[k - 1]);
                }
            }
        }
        assert(digits.take(n) =~= s.take(n));
        if n > 0 && (n == s.len() || !is_digit(s[n])) {
            assert(tail == rest.take(m));
            assert(digits =~= s.take(n));
        }
    } else {
        assert(n == 0);
        assert(digits.take(0) =~= s.take(0));
    }
}

/// More digits do not make a smaller number.
proof fn lemma_number_grows(digits: Seq<char>, n: int)
    requires
        0 <= n <= digits.len(),
        forall|k: int| 0 <= k < digits.len() ==> is_digit(#[trigger] digits[k]),
    ensures
        number(digits.take(n)) <= number(digits),
    decreases digits.len(),
{
    if n < digits.len() {
        let front = digits.drop_last();
        assert forall|k: int| 0 <= k < front.len() implies is_digit(#[trigger] front[k]) by {
            assert(front[k] == digits[k]);
        }
        lemma_number_grows(front, n);
        assert(front.take(n) =~= digits.take(n));
    } else {
        assert(digits.take(n) =~= digits);
    }
}

/// Reads a number in decimal notation.
pub fn parse_u32(text: &str) -> (parsed: Result<u32, NumberError>)
    ensures
        parsed == parsed_u32(text@),
{
    let chars: Vec<char> = chars_of(text);
    if chars.len() == 0 {
        return Err(NumberError::Empty);
    }
    let start: usize = if chars.len() > 1 && chars[0] == '+' {
        1
    } else {
        0
    };
    let ghost body = unsigned_part(text@);
    let mut value: u32 = 0;
    let mut i: usize = start;
    assert(body.take(0) =~= Seq::<char>::empty());
    while i < chars.len()
        invariant
            chars@ == text@,
            chars.len() > 0,
            body == unsigned_part(text@),
            body.len() + start == chars.len(),
            start <= 1,
            start <= i <= chars.len(),
            forall|k: int| 0 <= k < body.len() ==> body[k] == chars[k + start],
            forall|k: int| 0 <= k < i - start ==> is_digit(#[trigger] body[k]),
            value == number(body.take(i - start)),
        decreases chars.len() - i,
    {
        let c: char = chars[i];
        assert(body[i - start] == c);
        if c < '0' || c > '9' {
            proof {
                lemma_leading_digits(body, i - start);
            }
            return Err(NumberError::InvalidDigit);
        }
        let d: u32 = c as u32 - 48;
        assert(body.take(i - start + 1).drop_last() =~= body.take(i - start));
        assert(number(body.take(i - start + 1)) == value * 10 + d);
        if value > (0xffff_ffff - d) / 10 {
            proof {
                let digits = leading_digits(body);
                lemma_leading_digits(body, i - start + 1);
                lemma_number_grows(digits, i - start + 1);
            }
            return Err(NumberError::TooLarge);
        }
        value = value * 10 + d;
        i = i + 1;
    }
    proof {
        lemma_leading_digits(body, body.len() as int);
        assert(body.take(body.len() as int) =~= body);
    }
    Ok(value)
}

/// What is written in decimal notation reads back as the same number.
pub proof fn law_decimal_notation_reads_back(v: u32)
    ensures
        parsed_u32(decimal(v as nat)) == Ok::<u32, NumberError>(v),
{
    lemma_decimal_digits(v as nat);
    let s = decimal(v as nat);
    assert(is_digit(s[0]));
    lemma_leading_digits(s, s.len() as int);
    assert(s.take(s.len() as int) =~= s);
}

proof fn lemma_decimal_digits(n: nat)
    ensures
        decimal(n).len() > 0,
        forall|k: int| 0 <= k < decimal(n).len() ==> is_digit(#[trigger] decimal(n)[k]),
        number(decimal(n)) == n,
    decreases n,
{
    if n < 10 {
        assert(decimal(n).drop_last() =~= Seq::<char>::empty());
        assert(number(Seq::<char>::empty()) == 0);
    } else {
        lemma_decimal_digits(n / 10);
        assert(decimal(n).drop_last() =~= decimal(n / 10));
    }
}

/// Two texts are the same but for case exactly where they have the same length
/// and agree everywhere but for ASCII letters, whose two cases are 32 apart.
pub proof fn law_only_ascii_case_is_ignored(a: Seq<char>, b: Seq<char>)
    ensures
        same_but_for_case(a, b) <==> a.len() == b.len() && forall|i: int|
            0 <= i < a.len() ==> {
                ||| #[trigger] a[i] == b[i]
                ||| 'A' <= a[i] <= 'Z' && b[i] as u32 == a[i] as u32 + 32
                ||| 'A' <= b[i] <= 'Z' && a[i] as u32 == b[i] as u32 + 32
            },
{
    if same_but_for_case(a, b) {
        assert(lowered(a).len() == a.len() && lowered(b).len() == b.len());
        assert forall|i: int| 0 <= i < a.len() implies {
            ||| #[trigger] a[i] == b[i]
            ||| 'A' <= a[i] <= 'Z' && b[i] as u32 == a[i] as u32 + 32
            ||| 'A' <= b[i] <= 'Z' && a[i] as u32 == b[i] as u32 + 32
        } by {
            assert(lowered(a)[i] == lowered(b)[i]);
            lemma_ascii_lower(a[i], b[i]);
        }
    }
    if a.len() == b.len() && forall|i: int|
        0 <= i < a.len() ==> {
            ||| #[trigger] a[i] == b[i]
            ||| 'A' <= a[i] <= 'Z' && b[i] as u32 == a[i] as u32 + 32
            ||| 'A' <= b[i] <= 'Z' && a[i] as u32 == b[i] as u32 + 32
        } {
        assert forall|i: int| 0 <= i < a.len() implies lowered(a)[i] == lowered(b)[i] by {
            assert(a[i] == a[i]);
            lemma_ascii_lower(a[i], b[i]);
        }
        assert(lowered(a) =~= lowered(b));
    }
}

proof fn lemma_ascii_lower(a: char, b: char)
    ensures
        ascii_lower(a) == ascii_lower(b) <==> {
            ||| a == b
            ||| 'A' <= a <= 'Z' && b as u32 == a as u32 + 32
            ||| 'A' <= b <= 'Z' && a as u32 == b as u32 + 32
        },
{
    vstd::utf8::char_is_scalar(a);
    vstd::utf8::char_is_scalar(b);
    vstd::utf8::char_u32_cast(a, a as u32);
    vstd::utf8::char_u32_cast(b, b as u32);
}

/// A part occurs in a text exactly where the text is made up of something, the
/// part, and something.
pub proof fn law_parts_occur_without_gaps(part: Seq<char>, whole: Seq<char>)
    ensures
        occurs_in(part, whole) <==> exists|before: Seq<char>, after: Seq<char>|
            whole == #[trigger] (before + part + after),
{
    if occurs_in(part, whole) {
        let i = choose|i: int| occurs_at(part, whole, i);
        let before = whole.take(i);
        let after = whole.skip(i + part.len());
        assert forall|k: int| i <= k < i + part.len() implies whole[k] == part[k - i] by {
            assert(whole.subrange(i, i + part.len())[k - i] == part[k - i]);
        }
        assert(whole =~= before + part + after);
    }
    if exists|before: Seq<char>, after: Seq<char>| whole == #[trigger] (before + part + after) {
        let (before, after) = choose|before: Seq<char>, after: Seq<char>|
            whole == #[trigger] (before + part + after);
        let i = before.len() as int;
        assert(whole.subrange(i, i + part.len()) =~= part);
        assert(occurs_at(part, whole, i));
    }
}

proof fn lemma_leading_digits_end(s: Seq<char>)
    ensures
        ({
            let n = leading_digits(s).len() as int;
            &&& n <= s.len()
            &&& forall|k: int| 0 <= k < n ==> is_digit(#[trigger] s[k])
            &&& n < s.len() ==> !is_digit(s[n])
        }),
    decreases s.len(),
{
    if s.len() > 0 && is_digit(s[0]) {
        let rest = s.drop_first();
        lemma_leading_digits_end(rest);
        let n = leading_digits(s).len() as int;
        assert(n == leading_digits(rest).len() + 1);
        assert forall|k: int| 0 <= k < n implies is_digit(#[trigger] s[k]) by {
            if k > 0 {
                assert(rest[k - 1] == s[k]);
            }
        }
        if n < s.len() {
            assert(rest[n - 1] == s[n]);
        }
    }
}

/// What one more character does to the digits that a text begins with.
proof fn lemma_one_more_character(s: Seq<char>, c: char)
    ensures
        leading_digits(s.push(c)) == (if leading_digits(s).len() < s.len() {
            leading_digits(s)
        } else if is_digit(c) {
            s.push(c)
        } else {
            s
        }),
        leading_digits(s).len() <= s.len(),
        leading_digits(s).len() == s.len() ==> leading_digits(s) == s,
{
    let n = leading_digits(s).len() as int;
    let longer = s.push(c);
    lemma_leading_digits_end(s);
    lemma_leading_digits(s, n);
    assert forall|k: int| 0 <= k < n implies is_digit(#[trigger] longer[k]) by {
        assert(longer[k] == s[k]);
    }
    lemma_leading_digits(longer, n);
    assert(longer.take(n) =~= s.take(n));
    if n == s.len() {
        assert(s.take(n) =~= s);
        if is_digit(c) {
            lemma_leading_digits(longer, n + 1);
            assert(longer.take(n + 1) =~= longer);
        }
    }
}

/// A text of one character is a number where the character is a digit, and
/// then that digit; no text is no number.
pub proof fn law_single_digits_are_read(c: char)
    ensures
        parsed_u32(Seq::empty()) == Err::<u32, NumberError>(NumberError::Empty),
        '0' <= c <= '9' ==> parsed_u32(seq![c]) == Ok::<u32, NumberError>(
            (c as u32 - '0' as u32) as u32,
        ),
        !('0' <= c <= '9') ==> parsed_u32(seq![c]) == Err::<u32, NumberError>(
            NumberError::InvalidDigit,
        ),
{
    let nothing = Seq::<char>::empty();
    assert(nothing.push(c) =~= seq![c]);
    lemma_one_more_character(nothing, c);
    assert(seq![c].drop_last() =~= nothing);
    assert(number(nothing) == 0);
}

/// One more digit makes ten times the number and the digit, as far as that
/// fits; anything but a digit makes it no number.
pub proof fn law_digits_add_up(s: Seq<char>, c: char, v: u32)
    requires
        parsed_u32(s) == Ok::<u32, NumberError>(v),
    ensures
        ({
            let sum = v * 10 + (c as u32 - '0' as u32);
            parsed_u32(s.push(c)) == if !('0' <= c <= '9') {
                Err::<u32, NumberError>(NumberError::InvalidDigit)
            } else if sum <= 0xffff_ffff {
                Ok::<u32, NumberError>(sum as u32)
            } else {
                Err::<u32, NumberError>(NumberError::TooLarge)
            }
        }),
{
    let body = unsigned_part(s);
    lemma_one_more_character(body, c);
    if s.len() == 1 && s[0] == '+' {
        assert(leading_digits(s) =~= Seq::<char>::empty());
    }
    assert(unsigned_part(s.push(c)) =~= body.push(c));
    assert(body.push(c).drop_last() =~= body);
}

/// A text that is no number does not become one by one more character, and the
/// reason stays, but for no text at all and for a lone plus sign.
pub proof fn law_faults_of_numbers_stay(s: Seq<char>, c: char, error: NumberError)
    requires
        parsed_u32(s) == Err::<u32, NumberError>(error),
        s.len() > 0,
        s != seq!['+'],
    ensures
        parsed_u32(s.push(c)) == Err::<u32, NumberError>(error),
{
    let body = unsigned_part(s);
    if s.len() == 1 && s[0] == '+' {
        assert(s =~= seq!['+']);
    }
    lemma_one_more_character(body, c);
    lemma_leading_digits_end(body);
    assert(unsigned_part(s.push(c)) =~= body.push(c));
    if leading_digits(body).len() == body.len() && is_digit(c) {
        assert(body.push(c).drop_last() =~= body);
    }
}

/// One plus sign before a number changes nothing; before another plus sign it
/// is no part of a number.
pub proof fn law_one_plus_sign_is_ignored(s: Seq<char>)
    requires
        s.len() > 0,
    ensures
        s[0] != '+' ==> parsed_u32(seq!['+'] + s) == parsed_u32(s),
        s[0] == '+' ==> parsed_u32(seq!['+'] + s) == Err::<u32, NumberError>(
            NumberError::InvalidDigit,
        ),
{
    let signed = seq!['+'] + s;
    assert(signed.drop_first() =~= s);
    assert(unsigned_part(signed) == s);
    assert(number(Seq::<char>::empty()) == 0);
}

/// Decimal notation is digits only, and does not begin with a zero unless it is
/// the zero; a minus sign stands before that of a negative number.
pub proof fn law_decimal_notation_is_plain(n: nat, v: int)
    ensures
        decimal(n).len() > 0,
        forall|k: int| 0 <= k < decimal(n).len() ==> '0' <= #[trigger] decimal(n)[k] <= '9',
        decimal(n)[0] == '0' ==> n == 0 && decimal(n).len() == 1,
        v >= 0 ==> decimal_int(v) == decimal(v as nat),
        v < 0 ==> decimal_int(v).len() == decimal((-v) as nat).len() + 1 && decimal_int(v)[0] == '-'
            && decimal_int(v).drop_first() == decimal((-v) as nat),
    decreases n,
{
    lemma_decimal_digits(n);
    assert forall|k: int| 0 <= k < decimal(n).len() implies '0' <= #[trigger] decimal(n)[k]
        <= '9' by {
        assert(is_digit(decimal(n)[k]));
    }
    if n >= 10 {
        law_decimal_notation_is_plain(n / 10, v);
        assert(decimal(n)[0] == decimal(n / 10)[0]);
    } else {
        vstd::utf8::char_u32_cast('0', 48);
        vstd::utf8::char_u32_cast(decimal(n)[0], (48 + n) as u32);
    }
    if v < 0 {
        assert(decimal_int(v).drop_first() =~= decimal((-v) as nat));
    }
}

/// Decimal notation goes on digit by digit: behind the notation of a number
/// that is not zero, a digit makes that of ten times the number and the digit.
pub proof fn law_decimal_notation_goes_on(n: nat, d: nat)
    requires
        n > 0,
        d < 10,
    ensures
        decimal(n * 10 + d) == decimal(n).push(decimal(d)[0]),
        decimal(d) == seq![('0' as u32 + d) as char],
{
    assert((n * 10 + d) / 10 == n && (n * 10 + d) % 10 == d);
}

/// The model of a list of strings has the text of each string at its place.
pub proof fn law_texts_keep_their_place(strings: Seq<String>, i: int)
    requires
        0 <= i < strings.len(),
    ensures
        texts(strings).len() == strings.len(),
        texts(strings)[i] == strings[i]@,
{
}

} // verus!
