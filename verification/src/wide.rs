//! Wide strings: text as UTF-16 code units, ended by a zero unit.

use crate::text::chars_of;
use vstd::prelude::*;

verus! {

/// `char::from_u32` of std gives the character with a code point, and none for
/// a number that is no code point of a character: a surrogate, or one beyond
/// `char::MAX`.
pub assume_specification[ char::from_u32 ](i: u32) -> (c: Option<char>)
    ensures
        c == (if i < 0xd800 || 0xe000 <= i <= 0x10_ffff {
            Some(i as char)
        } else {
            None
        }),
;

/// What stands for a surrogate that is not part of a pair.
pub const REPLACEMENT: char = '\u{fffd}';

/// The code units of one character: one, or a pair of surrogates.
pub open spec fn units_of(c: char) -> Seq<u16> {
    let v = c as u32;
    if v < 0x1_0000 {
        seq![v as u16]
    } else {
        let offset = v - 0x1_0000;
        seq![(0xd800 + offset / 0x400) as u16, (0xdc00 + offset % 0x400) as u16]
    }
}

/// The code units of a text.
pub open spec fn encoded(s: Seq<char>) -> Seq<u16>
    decreases s.len(),
{
    if s.len() == 0 {
        Seq::empty()
    } else {
        units_of(s[0]) + encoded(s.drop_first())
    }
}

pub open spec fn is_high_surrogate(u: u16) -> bool {
    0xd800 <= u < 0xdc00
}

pub open spec fn is_low_surrogate(u: u16) -> bool {
    0xdc00 <= u < 0xe000
}

/// The character of a pair of surrogates.
pub open spec fn paired(high: u16, low: u16) -> char {
    (0x1_0000 + (high - 0xd800) * 0x400 + (low - 0xdc00)) as char
}

/// The text of code units, each surrogate outside a pair replaced.
pub open spec fn decoded(units: Seq<u16>) -> Seq<char>
    decreases units.len(),
{
    if units.len() == 0 {
        Seq::empty()
    } else if is_high_surrogate(units[0]) && units.len() > 1 && is_low_surrogate(units[1]) {
        seq![paired(units[0], units[1])] + decoded(units.skip(2))
    } else if is_high_surrogate(units[0]) || is_low_surrogate(units[0]) {
        seq![REPLACEMENT] + decoded(units.skip(1))
    } else {
        seq![units[0] as char] + decoded(units.skip(1))
    }
}

/// The code units before the first zero unit, or all of them.
pub open spec fn before_nul(units: Seq<u16>) -> Seq<u16>
    decreases units.len(),
{
    if units.len() == 0 || units[0] == 0 {
        Seq::empty()
    } else {
        seq![units[0]] + before_nul(units.skip(1))
    }
}

/// Encodes a text as code units with a zero unit at the end.
pub fn wide_null(text: &str) -> (units: Vec<u16>)
    ensures
        units@ == encoded(text@).push(0),
{
    let chars: Vec<char> = chars_of(text);
    let mut units: Vec<u16> = Vec::new();
    let mut i: usize = 0;
    assert(chars@.skip(0) =~= chars@);
    while i < chars.len()
        invariant
            i <= chars.len(),
            encoded(chars@) == units@ + encoded(chars@.skip(i as int)),
        decreases chars.len() - i,
    {
        let v: u32 = chars[i] as u32;
        assert(chars@.skip(i as int).drop_first() =~= chars@.skip(i + 1));
        let ghost before = units@;
        if v < 0x1_0000 {
            units.push(v as u16);
        } else {
            let offset: u32 = v - 0x1_0000;
            units.push((0xd800 + offset / 0x400) as u16);
            units.push((0xdc00 + offset % 0x400) as u16);
        }
        assert(units@ =~= before + units_of(chars[i as int]));
        assert(encoded(chars@) =~= units@ + encoded(chars@.skip(i + 1)));
        i = i + 1;
    }
    assert(encoded(chars@) =~= units@);
    units.push(0);
    units
}

/// Decodes code units, each surrogate outside a pair replaced.
fn decode(units: &[u16]) -> (text: String)
    ensures
        text@ == decoded(units@),
{
    let mut text: String = String::new();
    let mut i: usize = 0;
    assert(units@.skip(0) =~= units@);
    while i < units.len()
        invariant
            i <= units.len(),
            decoded(units@) == text@ + decoded(units@.skip(i as int)),
        decreases units.len() - i,
    {
        let ghost rest = units@.skip(i as int);
        let ghost before = text@;
        let unit: u16 = units[i];
        assert(rest.skip(1) =~= units@.skip(i + 1));
        if 0xd800 <= unit && unit < 0xdc00 && i + 1 < units.len() && 0xdc00 <= units[i + 1]
            && units[i + 1] < 0xe000 {
            let code: u32 = 0x1_0000 + (unit as u32 - 0xd800) * 0x400 + (units[i + 1] as u32
                - 0xdc00);
            let c: char = match char::from_u32(code) {
                Some(c) => c,
                None => REPLACEMENT,
            };
            text.push(c);
            assert(rest.skip(2) =~= units@.skip(i + 2));
            assert(before + decoded(rest) =~= text@ + decoded(rest.skip(2)));
            i = i + 2;
        } else {
            let c: char = match char::from_u32(unit as u32) {
                Some(c) => c,
                None => REPLACEMENT,
            };
            text.push(c);
            assert(before + decoded(rest) =~= text@ + decoded(rest.skip(1)));
            i = i + 1;
        }
    }
    assert(decoded(units@) =~= text@);
    text
}

/// Reads a wide string from a buffer: up to the first zero unit, or all of it.
pub fn utf16_to_string(buffer: &[u16]) -> (text: String)
    ensures
        text@ == decoded(before_nul(buffer@)),
{
    let mut end: usize = 0;
    assert(buffer@.take(0) + before_nul(buffer@.skip(0)) =~= before_nul(buffer@)) by {
        assert(buffer@.skip(0) =~= buffer@);
    }
    while end < buffer.len() && buffer[end] != 0
        invariant
            end <= buffer.len(),
            before_nul(buffer@) == buffer@.take(end as int) + before_nul(buffer@.skip(end as int)),
        decreases buffer.len() - end,
    {
        assert(buffer@.skip(end as int).skip(1) =~= buffer@.skip(end + 1));
        assert(buffer@.take(end + 1) =~= buffer@.take(end as int).push(buffer[end as int]));
        assert(before_nul(buffer@) =~= buffer@.take(end + 1) + before_nul(buffer@.skip(end + 1)));
        end = end + 1;
    }
    assert(before_nul(buffer@) =~= buffer@.take(end as int));
    decode(vstd::slice::slice_subrange(buffer, 0, end))
}

/// There was no wide string to read.
#[derive(Debug, Clone, Copy, PartialEq, Eq, Structural)]
pub struct NullWideString;

impl NullWideString {
    pub fn message(&self) -> (message: String)
        ensures
            message@ == "received null wide string"@,
    {
        "received null wide string".to_owned()
    }
}

/// Reads a wide string that the host handed out, if it did.
pub fn pwstr_to_string(text: Option<&[u16]>) -> (read: Result<String, NullWideString>)
    ensures
        match text {
            None => read == Err::<String, NullWideString>(NullWideString),
            Some(units) => read matches Ok(string) && string@ == decoded(before_nul(units@)),
        },
{
    match text {
        None => Err(NullWideString),
        Some(units) => Ok(utf16_to_string(units)),
    }
}

proof fn lemma_before_nul(units: Seq<u16>, n: int)
    requires
        0 <= n < units.len(),
        units[n] == 0,
        forall|k: int| 0 <= k < n ==> #[trigger] units[k] != 0,
    ensures
        before_nul(units) == units.take(n),
    decreases n,
{
    if n > 0 {
        let rest = units.skip(1);
        assert forall|k: int| 0 <= k < n - 1 implies #[trigger] rest[k] != 0 by {
            assert(rest[k] == units[k + 1]);
        }
        lemma_before_nul(rest, n - 1);
        assert(before_nul(units) =~= units.take(n));
    } else {
        assert(units.take(0) =~= Seq::<u16>::empty());
    }
}

proof fn lemma_encoded_has_no_nul(s: Seq<char>)
    requires
        forall|k: int| 0 <= k < s.len() ==> #[trigger] s[k] != '\0',
    ensures
        forall|k: int| 0 <= k < encoded(s).len() ==> #[trigger] encoded(s)[k] != 0,
    decreases s.len(),
{
    if s.len() > 0 {
        let rest = s.drop_first();
        assert forall|k: int| 0 <= k < rest.len() implies #[trigger] rest[k] != '\0' by {
            assert(rest[k] == s[k + 1]);
        }
        lemma_encoded_has_no_nul(rest);
        let first = units_of(s[0]);
        vstd::utf8::char_is_scalar(s[0]);
        vstd::utf8::char_u32_cast('\0', 0);
        vstd::utf8::char_u32_cast(s[0], s[0] as u32);
        assert(s[0] != '\0');
        assert forall|k: int| 0 <= k < encoded(s).len() implies #[trigger] encoded(s)[k] != 0 by {
            if k < first.len() {
                assert(encoded(s)[k] == first[k]);
            } else {
                assert(encoded(s)[k] == encoded(rest)[k - first.len()]);
            }
        }
    }
}

proof fn lemma_decoding_undoes_encoding(s: Seq<char>)
    ensures
        decoded(encoded(s)) == s,
    decreases s.len(),
{
    if s.len() > 0 {
        let c = s[0];
        let v = c as u32;
        vstd::utf8::char_is_scalar(c);
        vstd::utf8::char_u32_cast(c, v);
        let rest = s.drop_first();
        let units = encoded(s);
        lemma_decoding_undoes_encoding(rest);
        if v < 0x1_0000 {
            assert(units.skip(1) =~= encoded(rest));
            assert(units[0] as char == c);
        } else {
            let offset = v - 0x1_0000;
            assert(units.skip(2) =~= encoded(rest));
            assert(paired(units[0], units[1]) == c);
        }
        assert(decoded(units) =~= seq![c] + rest);
        assert(seq![c] + rest =~= s);
    } else {
        assert(decoded(encoded(s)) =~= s);
    }
}

/// A text without a zero character reads back from its wide string.
pub proof fn law_wide_text_reads_back(s: Seq<char>)
    requires
        forall|k: int| 0 <= k < s.len() ==> #[trigger] s[k] != '\0',
    ensures
        decoded(before_nul(encoded(s).push(0))) == s,
{
    let units = encoded(s).push(0);
    lemma_encoded_has_no_nul(s);
    lemma_before_nul(units, encoded(s).len() as int);
    assert(units.take(encoded(s).len() as int) =~= encoded(s));
    lemma_decoding_undoes_encoding(s);
}

/// A character is encoded as one unit, its code point, where that fits, and as
/// a high and a low surrogate that carry the rest otherwise.
pub proof fn law_characters_become_units(c: char)
    ensures
        ({
            let units = encoded(seq![c]);
            if (c as u32) < 0x1_0000 {
                units.len() == 1 && units[0] == c as u32
            } else {
                &&& units.len() == 2
                &&& 0xd800 <= units[0] < 0xdc00
                &&& 0xdc00 <= units[1] < 0xe000
                &&& c as u32 == 0x1_0000 + (units[0] - 0xd800) * 0x400 + (units[1] - 0xdc00)
            }
        }),
{
    vstd::utf8::char_is_scalar(c);
    vstd::utf8::char_u32_cast(c, c as u32);
    assert(seq![c].drop_first() =~= Seq::<char>::empty());
    assert(encoded(seq![c]) =~= units_of(c) + encoded(Seq::<char>::empty()));
    assert(encoded(seq![c]) =~= units_of(c));
}

/// Texts are encoded character by character: the units of two texts, one after
/// the other, are those of the texts one after the other.
pub proof fn law_texts_are_encoded_piece_by_piece(a: Seq<char>, b: Seq<char>)
    ensures
        encoded(a + b) == encoded(a) + encoded(b),
        encoded(Seq::empty()) == Seq::<u16>::empty(),
    decreases a.len(),
{
    if a.len() == 0 {
        assert(a + b =~= b);
        assert(encoded(a) + encoded(b) =~= encoded(b));
    } else {
        law_texts_are_encoded_piece_by_piece(a.drop_first(), b);
        assert((a + b).drop_first() =~= a.drop_first() + b);
        assert(encoded(a + b) =~= encoded(a) + encoded(b));
    }
}

/// Of a buffer, what stands before the first zero unit counts, or all of it
/// where there is none.
pub proof fn law_text_ends_at_the_first_null(text: Seq<u16>, rest: Seq<u16>)
    requires
        forall|k: int| 0 <= k < text.len() ==> #[trigger] text[k] != 0,
    ensures
        before_nul(text + seq![0u16] + rest) == text,
        before_nul(text) == text,
    decreases text.len(),
{
    let buffer = text + seq![0u16] + rest;
    assert forall|k: int| 0 <= k < text.len() implies #[trigger] buffer[k] != 0 by {
        assert(buffer[k] == text[k]);
    }
    lemma_before_nul(buffer, text.len() as int);
    assert(buffer.take(text.len() as int) =~= text);
    if text.len() > 0 {
        let fewer = text.skip(1);
        assert forall|k: int| 0 <= k < fewer.len() implies #[trigger] fewer[k] != 0 by {
            assert(fewer[k] == text[k + 1]);
        }
        law_text_ends_at_the_first_null(fewer, rest);
        assert(before_nul(text) =~= text);
    }
}

/// A unit that is no surrogate is read as the character with that code point,
/// whatever follows.
pub proof fn law_plain_units_are_characters(unit: u16, rest: Seq<u16>)
    requires
        unit < 0xd800 || unit >= 0xe000,
    ensures
        decoded(seq![unit] + rest) == seq![unit as char] + decoded(rest),
        (unit as char) as u32 == unit,
        decoded(Seq::empty()) == Seq::<char>::empty(),
{
    assert((seq![unit] + rest).skip(1) =~= rest);
}

/// A high and a low surrogate are read as the one character that they carry.
pub proof fn law_surrogate_pairs_are_characters(high: u16, low: u16, rest: Seq<u16>)
    requires
        0xd800 <= high < 0xdc00,
        0xdc00 <= low < 0xe000,
    ensures
        ({
            let text = decoded(seq![high, low] + rest);
            &&& text.len() == decoded(rest).len() + 1
            &&& text[0] as u32 == 0x1_0000 + (high - 0xd800) * 0x400 + (low - 0xdc00)
            &&& text.drop_first() == decoded(rest)
        }),
{
    let units = seq![high, low] + rest;
    assert(units.skip(2) =~= rest);
    let text = decoded(units);
    assert(text =~= seq![paired(high, low)] + decoded(rest));
    assert(text.drop_first() =~= decoded(rest));
}

/// A surrogate outside a pair is read as the replacement character, and what
/// follows it is read as if it were not there.
pub proof fn law_lone_surrogates_are_replaced(unit: u16, rest: Seq<u16>)
    requires
        0xd800 <= unit < 0xe000,
        unit >= 0xdc00 || rest.len() == 0 || rest[0] < 0xdc00 || rest[0] >= 0xe000,
    ensures
        decoded(seq![unit] + rest) == seq!['\u{fffd}'] + decoded(rest),
{
    let units = seq![unit] + rest;
    assert(units.skip(1) =~= rest);
    if units.len() > 1 {
        assert(units[1] == rest[0]);
    }
}

} // verus!
