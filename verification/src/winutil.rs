//! Small Win32 helpers: wide strings and error texts.

use vstd::prelude::*;

use crate::text::{chars_of, decimal, push_decimal, push_text};

verus! {

/// `char::from_u32` gives the character of a number, and `None` for a number
/// that is none: a surrogate, or one above the last character.
pub assume_specification[ char::from_u32 ](i: u32) -> (r: Option<char>)
    ensures
        r == if i < 0xD800 || (0xE000 <= i <= 0x10FFFF) {
            Some(i as char)
        } else {
            None
        },
;

/// The UTF-16 units of one character.
pub open spec fn units_of_char(c: char) -> Seq<u16> {
    let v = c as int;
    if v < 0x10000 {
        seq![v as u16]
    } else {
        seq![
            (0xD800 + (v - 0x10000) / 0x400) as u16,
            (0xDC00 + (v - 0x10000) % 0x400) as u16,
        ]
    }
}

/// The UTF-16 form of a text.
pub open spec fn utf16(s: Seq<char>) -> Seq<u16>
    decreases s.len(),
{
    if s.len() == 0 {
        seq![]
    } else {
        utf16(s.drop_last()) + units_of_char(s.last())
    }
}

/// Whether a unit is the first half of a surrogate pair.
pub open spec fn is_high(u: u16) -> bool {
    0xD800 <= u < 0xDC00
}

/// Whether a unit is the second half of a surrogate pair.
pub open spec fn is_low(u: u16) -> bool {
    0xDC00 <= u < 0xE000
}

/// The character of a surrogate pair.
pub open spec fn pair_char(high: u16, low: u16) -> char {
    (0x10000 + (high - 0xD800) * 0x400 + (low - 0xDC00)) as char
}

/// The text that UTF-16 units stand for. A surrogate without its other half
/// stands for U+FFFD.
pub open spec fn utf16_lossy(units: Seq<u16>) -> Seq<char>
    decreases units.len(),
{
    if units.len() == 0 {
        seq![]
    } else if is_high(units[0]) && units.len() > 1 && is_low(units[1]) {
        seq![pair_char(units[0], units[1])] + utf16_lossy(units.skip(2))
    } else if is_high(units[0]) || is_low(units[0]) {
        seq!['\u{FFFD}'] + utf16_lossy(units.skip(1))
    } else {
        seq![units[0] as char] + utf16_lossy(units.skip(1))
    }
}

proof fn lemma_char_range(c: char)
    ensures
        0 <= c as int <= 0x10FFFF,
{
}

/// Encode a string as a NUL-terminated UTF-16 buffer for the `*W` Win32 APIs.
pub fn to_wide(s: &str) -> (r: Vec<u16>)
    ensures
        r@ == utf16(s@).push(0),
{
    let chars = chars_of(s);
    let mut out: Vec<u16> = Vec::new();
    for i in 0..chars.len()
        invariant
            chars@ == s@,
            out@ == utf16(s@.take(i as int)),
    {
        let c: char = chars[i];
        proof {
            lemma_char_range(c);
        }
        let v: u32 = c as u32;
        if v < 0x10000 {
            out.push(v as u16);
        } else {
            out.push((0xD800 + (v - 0x10000) / 0x400) as u16);
            out.push((0xDC00 + (v - 0x10000) % 0x400) as u16);
        }
        assert(s@.take(i + 1).drop_last() =~= s@.take(i as int));
        assert(out@ =~= utf16(s@.take(i as int)) + units_of_char(s@[i as int]));
    }
    assert(s@.take(s@.len() as int) =~= s@);
    out.push(0);
    out
}

/// Ends wide units with the NUL that the `*W` Win32 APIs expect.
pub fn terminated(units: Vec<u16>) -> (r: Vec<u16>)
    ensures
        r@ == units@.push(0),
{
    let mut out = units;
    out.push(0);
    out
}

/// Decodes UTF-16 units, with U+FFFD for each unpaired surrogate.
pub fn from_wide_lossy(units: &Vec<u16>) -> (r: Vec<char>)
    ensures
        r@ == utf16_lossy(units@),
{
    let mut out: Vec<char> = Vec::new();
    let mut i: usize = 0;
    assert(units@.skip(0) =~= units@);
    while i < units.len()
        invariant
            i <= units@.len(),
            utf16_lossy(units@) == out@ + utf16_lossy(units@.skip(i as int)),
        decreases units@.len() - i,
    {
        let ghost rest = units@.skip(i as int);
        let ghost before = out@;
        let u: u16 = units[i];
        assert(rest[0] == u);
        assert(rest.skip(1) =~= units@.skip(i + 1));
        if 0xD800 <= u && u < 0xDC00 && i + 1 < units.len() && 0xDC00 <= units[i + 1] && units[i + 1] < 0xE000 {
            let low: u16 = units[i + 1];
            assert(rest[1] == low);
            assert(rest.skip(2) =~= units@.skip(i + 2));
            let v: u32 = 0x10000 + (u - 0xD800) as u32 * 0x400 + (low - 0xDC00) as u32;
            let c = match char::from_u32(v) {
                Some(c) => c,
                None => '\u{FFFD}',
            };
            out.push(c);
            assert(c == pair_char(u, low));
            i += 2;
        } else if 0xD800 <= u && u < 0xE000 {
            out.push('\u{FFFD}');
            i += 1;
        } else {
            let c = match char::from_u32(u as u32) {
                Some(c) => c,
                None => '\u{FFFD}',
            };
            out.push(c);
            i += 1;
        }
        assert(out@ =~= before.push(out@.last()));
        assert(utf16_lossy(units@) =~= out@ + utf16_lossy(units@.skip(i as int)));
    }
    assert(utf16_lossy(units@.skip(i as int)) =~= seq![]);
    out
}

/// White space, as Unicode has it.
pub open spec fn is_white_space(c: char) -> bool {
    let v = c as int;
    ||| 0x9 <= v <= 0xD
    ||| v == 0x20
    ||| v == 0x85
    ||| v == 0xA0
    ||| v == 0x1680
    ||| 0x2000 <= v <= 0x200A
    ||| v == 0x2028
    ||| v == 0x2029
    ||| v == 0x202F
    ||| v == 0x205F
    ||| v == 0x3000
}

/// Whether a character is white space.
pub fn white_space(c: char) -> (r: bool)
    ensures
        r == is_white_space(c),
{
    let v: u32 = c as u32;
    (0x9 <= v && v <= 0xD) || v == 0x20 || v == 0x85 || v == 0xA0 || v == 0x1680 || (0x2000 <= v && v <= 0x200A)
        || v == 0x2028 || v == 0x2029 || v == 0x202F || v == 0x205F || v == 0x3000
}

/// The text without the white space that it begins with.
pub open spec fn trim_start(s: Seq<char>) -> Seq<char>
    decreases s.len(),
{
    if s.len() > 0 && is_white_space(s[0]) {
        trim_start(s.drop_first())
    } else {
        s
    }
}

/// The text without the white space that it ends with.
pub open spec fn trim_end(s: Seq<char>) -> Seq<char>
    decreases s.len(),
{
    if s.len() > 0 && is_white_space(s.last()) {
        trim_end(s.drop_last())
    } else {
        s
    }
}

/// The text without the white space on either side of it.
pub fn trimmed(chars: &Vec<char>) -> (r: String)
    ensures
        r@ == trim_end(trim_start(chars@)),
{
    let mut from: usize = 0;
    assert(chars@.skip(0) =~= chars@);
    while from < chars.len() && white_space(chars[from])
        invariant
            from <= chars@.len(),
            trim_start(chars@) == trim_start(chars@.skip(from as int)),
        decreases chars@.len() - from,
    {
        assert(chars@.skip(from as int).drop_first() =~= chars@.skip(from + 1));
        from += 1;
    }
    let ghost rest = chars@.skip(from as int);
    assert(trim_start(chars@) == rest);
    let mut to: usize = chars.len();
    assert(chars@.subrange(from as int, to as int) =~= rest);
    while from < to && white_space(chars[to - 1])
        invariant
            from <= to <= chars@.len(),
            trim_end(rest) == trim_end(chars@.subrange(from as int, to as int)),
        decreases to - from,
    {
        assert(chars@.subrange(from as int, to as int).drop_last() =~= chars@.subrange(from as int, to - 1));
        to -= 1;
    }
    assert(trim_end(rest) == chars@.subrange(from as int, to as int));
    let mut out = String::new();
    for i in from..to
        invariant
            from <= to <= chars@.len(),
            out@ == chars@.subrange(from as int, i as int),
    {
        out.push(chars[i]);
        assert(chars@.subrange(from as int, i as int).push(chars@[i as int]) =~= chars@.subrange(
            from as int,
            i + 1,
        ));
    }
    out
}

/// The description of the Win32 error `err`: the system's own `message`, where
/// it has one, without the white space around it.
pub open spec fn error_text(err: u32, message: Option<Seq<u16>>) -> Seq<char> {
    match message {
        Some(units) if units.len() > 0 => trim_end(trim_start(utf16_lossy(units))),
        _ => "Win32 error "@ + decimal(err as nat),
    }
}

/// The units of a wide string, if there is one.
pub open spec fn wide_view(message: Option<Vec<u16>>) -> Option<Seq<u16>> {
    match message {
        Some(units) => Some(units@),
        None => None,
    }
}

/// Produce a readable description for a Win32 error code. `message` is what
/// `FormatMessageW` wrote, and `None` where it wrote nothing.
pub fn format_last_error(err: u32, message: Option<Vec<u16>>) -> (r: String)
    ensures
        r@ == error_text(err, wide_view(message)),
        match message {
            Some(units) => r@ == error_text(err, Some(units@)),
            None => r@ == error_text(err, None),
        },
{
    if let Some(units) = message {
        if units.len() > 0 {
            let chars = from_wide_lossy(&units);
            return trimmed(&chars);
        }
    }
    let mut out = String::new();
    push_text(&mut out, "Win32 error ");
    push_decimal(&mut out, err);
    assert(out@ =~= "Win32 error "@ + decimal(err as nat));
    out
}

/// The units of a character are read as that character, and reading goes on
/// behind them.
proof fn lemma_lossy_char(c: char, b: Seq<u16>)
    ensures
        utf16_lossy(units_of_char(c) + b) == seq![c] + utf16_lossy(b),
{
    let u = units_of_char(c);
    let v = c as int;
    let t = u + b;
    assert(t[0] == u[0]);
    if v < 0x10000 {
        assert(t.skip(1) =~= b);
    } else {
        let d = v - 0x10000;
        assert(d == (d / 0x400) * 0x400 + d % 0x400);
        assert(t.skip(2) =~= b);
        assert(t[1] == u[1]);
        assert(pair_char(u[0], u[1]) == c);
    }
}

/// Reading goes on behind well-formed text as if it began there.
proof fn lemma_lossy_concat(s: Seq<char>, b: Seq<u16>)
    ensures
        utf16_lossy(utf16(s) + b) == s + utf16_lossy(b),
    decreases s.len(),
{
    if s.len() == 0 {
        assert(utf16(s) + b =~= b);
        assert(s + utf16_lossy(b) =~= utf16_lossy(b));
    } else {
        let c = s.last();
        lemma_lossy_concat(s.drop_last(), units_of_char(c) + b);
        assert(utf16(s) + b =~= utf16(s.drop_last()) + (units_of_char(c) + b));
        lemma_lossy_char(c, b);
        assert(s.drop_last() + (seq![c] + utf16_lossy(b)) =~= s + utf16_lossy(b));
    }
}

/// A text is read back from its wide form.
pub proof fn law_wide_text_is_read_back(s: Seq<char>)
    ensures
        utf16_lossy(utf16(s)) == s,
{
    lemma_lossy_concat(s, seq![]);
    assert(utf16(s) + Seq::<u16>::empty() =~= utf16(s));
    assert(s + utf16_lossy(seq![]) =~= s);
}

/// A character is written as UTF-16 writes it: in one unit with its number, or,
/// where that is too large, in a high and a low surrogate that hold ten bits
/// each of what it is above 0x10000.
pub proof fn law_units_hold_the_character(c: char)
    ensures
        ({
            let units = utf16(seq![c]);
            let number = c as int;
            &&& number < 0x10000 ==> units.len() == 1 && units[0] == number
            &&& number >= 0x10000 ==> {
                &&& units.len() == 2
                &&& 0xD800 <= units[0] < 0xDC00
                &&& 0xDC00 <= units[1] < 0xE000
                &&& 0x10000 + 0x400 * (units[0] - 0xD800) + (units[1] - 0xDC00) == number
            }
        }),
{
    lemma_char_range(c);
    assert(seq![c].drop_last() =~= seq![]);
    assert(utf16(seq![]) =~= seq![]);
    assert(utf16(seq![c]) =~= units_of_char(c));
}

/// Wide texts are joined like texts.
pub proof fn law_wide_texts_join(a: Seq<char>, b: Seq<char>)
    ensures
        utf16(a + b) == utf16(a) + utf16(b),
    decreases b.len(),
{
    if b.len() == 0 {
        assert(a + b =~= a);
        assert(utf16(a) + utf16(b) =~= utf16(a));
    } else {
        law_wide_texts_join(a, b.drop_last());
        assert((a + b).drop_last() =~= a + b.drop_last());
        assert(utf16(a + b) =~= utf16(a) + utf16(b));
    }
}

/// Units are decoded one character after the other: a high surrogate with a low
/// one behind it is the character of the two, any other surrogate is U+FFFD,
/// and any other unit is the character of its number.
pub proof fn law_units_are_decoded(unit: u16, rest: Seq<u16>)
    ensures
        ({
            let read = utf16_lossy(seq![unit] + rest);
            let paired = 0xD800 <= unit < 0xDC00 && rest.len() > 0 && 0xDC00 <= rest[0] < 0xE000;
            &&& utf16_lossy(seq![]).len() == 0
            &&& read.len() > 0
            &&& read.skip(1) == if paired {
                utf16_lossy(rest.skip(1))
            } else {
                utf16_lossy(rest)
            }
            &&& read[0] as int == if paired {
                0x10000 + 0x400 * (unit - 0xD800) + (rest[0] - 0xDC00)
            } else if 0xD800 <= unit < 0xE000 {
                0xFFFD
            } else {
                unit as int
            }
        }),
{
    let units = seq![unit] + rest;
    assert(units[0] == unit);
    assert(units.skip(1) =~= rest);
    if rest.len() > 0 {
        assert(units[1] == rest[0]);
        assert(units.skip(2) =~= rest.skip(1));
    }
    let read = utf16_lossy(units);
    if is_high(unit) && rest.len() > 0 && is_low(rest[0]) {
        assert(read.skip(1) =~= utf16_lossy(rest.skip(1)));
    } else {
        assert(read.skip(1) =~= utf16_lossy(rest));
    }
}

/// Whether a text is white space alone.
pub open spec fn all_white(s: Seq<char>) -> bool {
    forall|i: int| 0 <= i < s.len() ==> is_white_space(#[trigger] s[i])
}

/// Whether `inner` is what is left of `s` without the white space around it:
/// what stands before and behind it is white space alone, and it neither begins
/// nor ends with any.
pub open spec fn is_trimmed(s: Seq<char>, inner: Seq<char>) -> bool {
    &&& inner.len() > 0 ==> !is_white_space(inner[0]) && !is_white_space(inner.last())
    &&& exists|before: Seq<char>, behind: Seq<char>| #[trigger]
        all_white(before) && #[trigger] all_white(behind) && s == before + inner + behind
}

proof fn lemma_trim_start(s: Seq<char>) -> (before: Seq<char>)
    ensures
        all_white(before),
        s == before + trim_start(s),
        trim_start(s).len() > 0 ==> !is_white_space(trim_start(s)[0]),
    decreases s.len(),
{
    if s.len() > 0 && is_white_space(s[0]) {
        let more = lemma_trim_start(s.drop_first());
        let before = seq![s[0]] + more;
        assert(s =~= seq![s[0]] + s.drop_first());
        assert(s =~= before + trim_start(s));
        before
    } else {
        assert(s =~= Seq::<char>::empty() + s);
        seq![]
    }
}

proof fn lemma_trim_end(s: Seq<char>) -> (behind: Seq<char>)
    ensures
        all_white(behind),
        s == trim_end(s) + behind,
        trim_end(s).len() > 0 ==> !is_white_space(trim_end(s).last()) && trim_end(s)[0] == s[0],
    decreases s.len(),
{
    if s.len() > 0 && is_white_space(s.last()) {
        let more = lemma_trim_end(s.drop_last());
        let behind = more.push(s.last());
        assert(s =~= s.drop_last().push(s.last()));
        assert(s =~= trim_end(s) + behind);
        behind
    } else {
        assert(s =~= s + Seq::<char>::empty());
        seq![]
    }
}

/// The description of an error is the system's message without the white space
/// around it, or, where there is none, the words `Win32 error` and the code.
pub proof fn law_error_text_is_the_message(err: u32, units: Seq<u16>)
    ensures
        units.len() > 0 ==> is_trimmed(utf16_lossy(units), error_text(err, Some(units))),
        units.len() == 0 ==> error_text(err, Some(units)) == error_text(err, None),
        ({
            let text = error_text(err, None);
            let words = "Win32 error "@;
            &&& words.is_prefix_of(text)
            &&& text.skip(words.len() as int) == decimal(err as nat)
        }),
{
    let s = utf16_lossy(units);
    let before = lemma_trim_start(s);
    let behind = lemma_trim_end(trim_start(s));
    let inner = trim_end(trim_start(s));
    assert(s =~= before + inner + behind);
    assert(all_white(before) && all_white(behind));
    let text = error_text(err, None);
    let words = "Win32 error "@;
    assert(text.subrange(0, words.len() as int) =~= words);
    assert(text.skip(words.len() as int) =~= decimal(err as nat));
}

/// The white space characters are these, and no others: those of the Unicode
/// property `White_Space`.
pub proof fn law_white_space_characters(c: char)
    ensures
        is_white_space(c) <==> seq![
            0x9int, 0xA, 0xB, 0xC, 0xD, 0x20, 0x85, 0xA0, 0x1680, 0x2000, 0x2001, 0x2002, 0x2003, 0x2004, 0x2005,
            0x2006, 0x2007, 0x2008, 0x2009, 0x200A, 0x2028, 0x2029, 0x202F, 0x205F, 0x3000,
        ].contains(c as int),
{
    let list = seq![
        0x9int, 0xA, 0xB, 0xC, 0xD, 0x20, 0x85, 0xA0, 0x1680, 0x2000, 0x2001, 0x2002, 0x2003, 0x2004, 0x2005,
        0x2006, 0x2007, 0x2008, 0x2009, 0x200A, 0x2028, 0x2029, 0x202F, 0x205F, 0x3000,
    ];
    let v = c as int;
    if 0x9 <= v <= 0xD {
        assert(list[v - 0x9] == v);
    } else if 0x2000 <= v <= 0x200A {
        assert(list[v - 0x2000 + 9] == v);
    } else {
        assert(list[5] == 0x20 && list[6] == 0x85 && list[7] == 0xA0 && list[8] == 0x1680);
        assert(list[20] == 0x2028 && list[21] == 0x2029 && list[22] == 0x202F && list[23] == 0x205F && list[24]
            == 0x3000);
    }
}

} // verus!
