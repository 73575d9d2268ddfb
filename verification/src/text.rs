//! Text: decimal numerals, prefixes, white space and truncation, over the
//! characters that a string holds.

use vstd::prelude::*;
use vstd::string::*;
use vstd::utf8::*;

verus! {

/// What stands in for the characters that a shortened name leaves out.
pub const ELLIPSIS: char = '\u{2026}';

/// `String::push` appends one character.
pub assume_specification[ String::push ](s: &mut String, c: char)
    ensures
        final(s)@ == old(s)@.push(c),
;

// ---------------------------------------------------------------- numerals

/// The character that writes the digit `d`.
pub open spec fn digit(d: nat) -> char {
    (48 + d) as char
}

/// `n` in decimal, without leading zeros.
pub open spec fn decimal(n: nat) -> Seq<char>
    decreases n,
{
    if n < 10 {
        seq![digit(n)]
    } else {
        decimal(n / 10).push(digit(n % 10))
    }
}

/// `n` in decimal, filled up with zeros on the left to `width` digits.
pub open spec fn zero_padded(n: nat, width: nat) -> Seq<char> {
    let digits = decimal(n);
    if digits.len() < width {
        Seq::new((width - digits.len()) as nat, |i: int| '0') + digits
    } else {
        digits
    }
}

/// Appends `n` in decimal.
pub fn push_decimal(out: &mut String, n: u64)
    ensures
        final(out)@ == old(out)@ + decimal(n as nat),
    decreases n,
{
    if n >= 10 {
        push_decimal(out, n / 10);
    }
    let unit: u8 = (n % 10) as u8;
    out.push((48 + unit) as char);
    assert(out@ == old(out)@ + decimal(n as nat));
}

/// Appends `n` in decimal, with zeros on the left up to `width` digits.
pub fn push_zero_padded(out: &mut String, n: u64, width: usize)
    ensures
        final(out)@ == old(out)@ + zero_padded(n as nat, width as nat),
{
    let mut digits: String = String::new();
    push_decimal(&mut digits, n);
    assert(digits@ == decimal(n as nat));
    let mut filled: usize = digits.as_str().unicode_len();
    let ghost start = out@;
    let ghost first = filled;
    while filled < width
        invariant
            first <= filled,
            first < width ==> filled <= width,
            first >= width ==> filled == first,
            out@ == start + Seq::new((filled - first) as nat, |i: int| '0'),
        decreases width - filled,
    {
        out.push('0');
        filled = filled + 1;
        assert(out@ =~= start + Seq::new((filled - first) as nat, |i: int| '0'));
    }
    out.append(digits.as_str());
    assert(out@ =~= start + zero_padded(n as nat, width as nat));
}

// -------------------------------------------------------------- white space

/// Whether `c` is white space, as Unicode lists it.
pub open spec fn is_white_space(c: char) -> bool {
    ||| 0x9 <= c as nat <= 0xD
    ||| c == ' '
    ||| c == '\u{85}'
    ||| c == '\u{A0}'
    ||| c == '\u{1680}'
    ||| 0x2000 <= c as nat <= 0x200A
    ||| c == '\u{2028}'
    ||| c == '\u{2029}'
    ||| c == '\u{202F}'
    ||| c == '\u{205F}'
    ||| c == '\u{3000}'
}

/// Whether nothing but white space stands in `s`.
pub open spec fn is_blank(s: Seq<char>) -> bool {
    forall|i: int| 0 <= i < s.len() ==> is_white_space(#[trigger] s[i])
}

/// Tells white space from other characters.
pub fn white_space(c: char) -> (answer: bool)
    ensures
        answer == is_white_space(c),
{
    let code: u32 = c as u32;
    (0x9 <= code && code <= 0xD) || c == ' ' || c == '\u{85}' || c == '\u{A0}' || c == '\u{1680}'
        || (0x2000 <= code && code <= 0x200A) || c == '\u{2028}' || c == '\u{2029}'
        || c == '\u{202F}' || c == '\u{205F}' || c == '\u{3000}'
}

/// Tells whether a text is empty or holds white space only.
pub fn blank(s: &str) -> (answer: bool)
    ensures
        answer == is_blank(s@),
        answer <==> forall|i: int| 0 <= i < s@.len() ==> is_white_space(#[trigger] s@[i]),
{
    let len: usize = s.unicode_len();
    let mut i: usize = 0;
    while i < len
        invariant
            len == s@.len(),
            i <= len,
            forall|j: int| 0 <= j < i ==> is_white_space(#[trigger] s@[j]),
        decreases len - i,
    {
        if !white_space(s.get_char(i)) {
            assert(!is_white_space(s@[i as int]));
            return false;
        }
        i = i + 1;
    }
    true
}

/// The first position at or after `from` whose character is white space, or is
/// not, as `wanted` says; the length where there is none.
pub open spec fn next_position(s: Seq<char>, from: int, wanted: bool) -> int
    decreases s.len() - from,
{
    if from >= s.len() {
        s.len() as int
    } else if is_white_space(s[from]) == wanted {
        from
    } else {
        next_position(s, from + 1, wanted)
    }
}

/// The first run of characters that are not white space, where there is one.
pub open spec fn first_word_of(s: Seq<char>) -> Option<Seq<char>> {
    let start = next_position(s, 0, false);
    if start >= s.len() {
        None
    } else {
        Some(s.subrange(start, next_position(s, start, true)))
    }
}

fn find_position(s: &str, from: usize, wanted: bool) -> (position: usize)
    requires
        from <= s@.len(),
    ensures
        position == next_position(s@, from as int, wanted),
        from <= position <= s@.len(),
{
    let len: usize = s.unicode_len();
    let mut i: usize = from;
    while i < len
        invariant
            len == s@.len(),
            from <= i <= len,
            next_position(s@, from as int, wanted) == next_position(s@, i as int, wanted),
        decreases len - i,
    {
        if white_space(s.get_char(i)) == wanted {
            return i;
        }
        i = i + 1;
    }
    i
}

/// The first word of a text: what stands before, between or after white space.
pub fn first_word(s: &str) -> (word: Option<String>)
    ensures
        word is Some == first_word_of(s@) is Some,
        word matches Some(w) ==> first_word_of(s@) == Some(w@),
{
    let len: usize = s.unicode_len();
    let start: usize = find_position(s, 0, false);
    if start >= len {
        None
    } else {
        let end: usize = find_position(s, start, true);
        Some(s.substring_char(start, end).to_owned())
    }
}

// ------------------------------------------------------------------ equality

/// Tells whether two texts hold the same characters.
pub fn same_text(a: &str, b: &str) -> (answer: bool)
    ensures
        answer == (a@ == b@),
{
    let x: &[u8] = a.as_bytes();
    let y: &[u8] = b.as_bytes();
    if x.len() != y.len() {
        return false;
    }
    let mut i: usize = 0;
    while i < x.len()
        invariant
            x@ == encode_utf8(a@),
            y@ == encode_utf8(b@),
            x@.len() == y@.len(),
            i <= x@.len(),
            forall|j: int| 0 <= j < i ==> x@[j] == y@[j],
        decreases x@.len() - i,
    {
        if x[i] != y[i] {
            return false;
        }
        i = i + 1;
    }
    proof {
        assert(x@ =~= y@);
        encode_utf8_decode_utf8(a@);
        encode_utf8_decode_utf8(b@);
    }
    true
}

// ------------------------------------------------------------------ prefixes

/// Whether `s` begins with `prefix`.
pub open spec fn begins_with(s: Seq<char>, prefix: Seq<char>) -> bool {
    prefix.len() <= s.len() && s.subrange(0, prefix.len() as int) == prefix
}

/// What follows `prefix` in `s`, where `s` begins with it.
pub open spec fn after_prefix(s: Seq<char>, prefix: Seq<char>) -> Option<Seq<char>> {
    if begins_with(s, prefix) {
        Some(s.subrange(prefix.len() as int, s.len() as int))
    } else {
        None
    }
}

/// Tells whether a text begins with another.
pub fn has_prefix(s: &str, prefix: &str) -> (answer: bool)
    ensures
        answer == begins_with(s@, prefix@),
{
    let len: usize = prefix.unicode_len();
    len <= s.unicode_len() && same_text(s.substring_char(0, len), prefix)
}

/// Takes a prefix off, where it is there.
pub fn without_prefix(s: &str, prefix: &str) -> (rest: Option<String>)
    ensures
        rest is Some == after_prefix(s@, prefix@) is Some,
        rest matches Some(r) ==> after_prefix(s@, prefix@) == Some(r@),
{
    if has_prefix(s, prefix) {
        Some(s.substring_char(prefix.unicode_len(), s.unicode_len()).to_owned())
    } else {
        None
    }
}

/// Tells whether a character occurs in a text.
pub fn has_char(s: &str, wanted: char) -> (answer: bool)
    ensures
        answer == s@.contains(wanted),
{
    let len: usize = s.unicode_len();
    let mut i: usize = 0;
    while i < len
        invariant
            len == s@.len(),
            i <= len,
            forall|j: int| 0 <= j < i ==> s@[j] != wanted,
        decreases len - i,
    {
        if s.get_char(i) == wanted {
            assert(s@[i as int] == wanted);
            return true;
        }
        i = i + 1;
    }
    false
}

// ------------------------------------------------------------------ shortening

/// `name` cut down to `keep` characters and an ellipsis, where it has more than
/// `limit`; otherwise `name`.
pub open spec fn shortened(name: Seq<char>, limit: nat, keep: nat) -> Seq<char> {
    if name.len() <= limit {
        name
    } else {
        name.subrange(0, keep as int).push(ELLIPSIS)
    }
}

/// Shortens a name that is longer than `limit`.
pub fn shorten(name: &str, limit: usize, keep: usize) -> (short: String)
    requires
        keep <= limit,
    ensures
        short@ == shortened(name@, limit as nat, keep as nat),
{
    if name.unicode_len() <= limit {
        name.to_owned()
    } else {
        let mut short: String = name.substring_char(0, keep).to_owned();
        short.push(ELLIPSIS);
        short
    }
}

// ----------------------------------------------------------------------------- laws

/// Numerals are decimal: a number below ten is written by its digit, and a longer
/// numeral is that of the tens with the digit of the units behind it.
pub proof fn numerals_are_decimal(tens: nat, units: nat)
    requires
        units < 10,
    ensures
        decimal(units).len() == 1,
        decimal(units)[0] as nat == '0' as nat + units,
        tens > 0 ==> decimal(10 * tens + units) == decimal(tens) + decimal(units),
{
    if tens > 0 {
        assert((10 * tens + units) / 10 == tens && (10 * tens + units) % 10 == units);
        assert(decimal(10 * tens + units) =~= decimal(tens) + decimal(units));
    }
}

/// Different numbers have different numerals.
pub proof fn numerals_differ(a: nat, b: nat)
    requires
        a != b,
    ensures
        decimal(a) != decimal(b),
    decreases a + b,
{
    if decimal(a) == decimal(b) {
        numeral_is_not_empty(a / 10);
        numeral_is_not_empty(b / 10);
        if a >= 10 && b >= 10 {
            assert(decimal(a).drop_last() =~= decimal(a / 10));
            assert(decimal(b).drop_last() =~= decimal(b / 10));
            assert(decimal(a).last() == digit(a % 10));
            assert(decimal(b).last() == digit(b % 10));
            if a / 10 != b / 10 {
                numerals_differ(a / 10, b / 10);
            }
        } else {
            assert(decimal(a).len() == decimal(b).len());
            assert(a < 10 && b < 10);
            assert(decimal(a)[0] == digit(a));
            assert(decimal(b)[0] == digit(b));
        }
    }
}

proof fn numeral_is_not_empty(n: nat)
    ensures
        decimal(n).len() >= 1,
{
}

/// A padded numeral ends with the numeral, has nothing but zeros before it, and is
/// as long as it is to be unless the numeral is longer.
pub proof fn padding_is_zeros(n: nat, width: nat)
    ensures
        ({
            let text = zero_padded(n, width);
            let digits = decimal(n);
            let zeros = text.len() - digits.len();
            &&& zeros >= 0
            &&& text.len() >= width
            &&& zeros > 0 ==> text.len() == width
            &&& text.subrange(zeros, text.len() as int) == digits
            &&& forall|i: int| 0 <= i < zeros ==> #[trigger] text[i] == '0'
        }),
{
    let text = zero_padded(n, width);
    let digits = decimal(n);
    assert(text.subrange(text.len() - digits.len(), text.len() as int) =~= digits);
}

proof fn next_position_is_next(s: Seq<char>, from: int, wanted: bool)
    requires
        0 <= from <= s.len(),
    ensures
        from <= next_position(s, from, wanted) <= s.len(),
        forall|i: int|
            from <= i < next_position(s, from, wanted) ==> is_white_space(#[trigger] s[i])
                != wanted,
        next_position(s, from, wanted) < s.len() ==> is_white_space(
            s[next_position(s, from, wanted)],
        ) == wanted,
    decreases s.len() - from,
{
    if from < s.len() && is_white_space(s[from]) != wanted {
        next_position_is_next(s, from + 1, wanted);
    }
}

/// The first word is the first run of characters that are not white space: only
/// white space stands before it, none in it, and none but white space right behind
/// it. Where there is no word there is nothing but white space.
pub proof fn first_word_is_the_first_run(s: Seq<char>)
    ensures
        first_word_of(s) is None <==> forall|i: int|
            0 <= i < s.len() ==> is_white_space(#[trigger] s[i]),
        first_word_of(s) matches Some(word) ==> exists|start: int, end: int|
            {
                &&& 0 <= start < end <= s.len()
                &&& word == #[trigger] s.subrange(start, end)
                &&& forall|i: int| 0 <= i < start ==> is_white_space(#[trigger] s[i])
                &&& forall|i: int| start <= i < end ==> !is_white_space(#[trigger] s[i])
                &&& end < s.len() ==> is_white_space(s[end])
            },
{
    let start = next_position(s, 0, false);
    next_position_is_next(s, 0, false);
    if start < s.len() {
        let end = next_position(s, start, true);
        next_position_is_next(s, start, true);
        assert(!is_white_space(s[start]));
        assert(first_word_of(s) == Some(s.subrange(start, end)));
    }
}

/// What follows a prefix is what was written behind it: a text begins with a prefix
/// exactly when it is the prefix with the rest behind it.
pub proof fn prefix_and_rest_make_the_text(s: Seq<char>, prefix: Seq<char>, rest: Seq<char>)
    ensures
        after_prefix(s, prefix) == Some(rest) <==> s == prefix + rest,
        begins_with(prefix + rest, prefix),
        begins_with(s, prefix) == after_prefix(s, prefix) is Some,
{
    let whole = prefix + rest;
    assert(whole.subrange(0, prefix.len() as int) =~= prefix);
    assert(whole.subrange(prefix.len() as int, whole.len() as int) =~= rest);
    if after_prefix(s, prefix) == Some(rest) {
        assert(s =~= s.subrange(0, prefix.len() as int) + s.subrange(
            prefix.len() as int,
            s.len() as int,
        ));
    }
}

/// A name within the limit is kept; another one keeps its beginning, and an ellipsis
/// stands for what is left out.
pub proof fn shortening_keeps_the_beginning(name: Seq<char>, limit: nat, keep: nat)
    requires
        keep <= limit,
    ensures
        name.len() <= limit ==> shortened(name, limit, keep) == name,
        name.len() > limit ==> {
            let short = shortened(name, limit, keep);
            &&& short.len() == keep + 1
            &&& short[keep as int] == '\u{2026}'
            &&& forall|i: int| 0 <= i < keep ==> #[trigger] short[i] == name[i]
        },
{
}

}
