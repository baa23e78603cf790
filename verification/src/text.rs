//! Text helpers over the characters of a string: trimming, splitting,
//! joining and comparing.

use vstd::prelude::*;
use vstd::string::StringSliceAdditionalSpecFns;
use vstd::utf8::*;

verus! {

/// `String::push` appends one character.
pub assume_specification[ String::push ](text: &mut String, c: char)
    ensures
        final(text)@ == old(text)@.push(c),
;

/// The characters with the Unicode `White_Space` property.
pub open spec fn white_space(c: char) -> bool {
    ||| 0x9 <= c as u32 <= 0xd
    ||| c as u32 == 0x20
    ||| c as u32 == 0x85
    ||| c as u32 == 0xa0
    ||| c as u32 == 0x1680
    ||| 0x2000 <= c as u32 <= 0x200a
    ||| c as u32 == 0x2028
    ||| c as u32 == 0x2029
    ||| c as u32 == 0x202f
    ||| c as u32 == 0x205f
    ||| c as u32 == 0x3000
}

/// Whether `c` is white space.
pub fn is_white_space(c: char) -> (result: bool)
    ensures
        result == white_space(c),
{
    let n: u32 = c as u32;
    (0x9 <= n && n <= 0xd) || n == 0x20 || n == 0x85 || n == 0xa0 || n == 0x1680 || (0x2000 <= n
        && n <= 0x200a) || n == 0x2028 || n == 0x2029 || n == 0x202f || n == 0x205f || n == 0x3000
}

/// Whether `c` is a letter or a digit, as `char::is_alphanumeric` reports it.
pub uninterp spec fn alphanumeric(c: char) -> bool;

/// `char::is_alphanumeric` goes by the Unicode tables for letters and numbers,
/// which among the ASCII characters hold exactly the letters and the digits.
pub assume_specification[ char::is_alphanumeric ](c: char) -> (result: bool)
    ensures
        result == alphanumeric(c),
        c as u32 <= 0x7f ==> result == ('0' <= c <= '9' || 'A' <= c <= 'Z' || 'a' <= c <= 'z'),
;

/// The views of a list of strings.
pub open spec fn views(parts: Seq<String>) -> Seq<Seq<char>> {
    parts.map_values(|part: String| part@)
}

/// The characters of `text`, as a vector.
pub fn chars_of(text: &str) -> (out: Vec<char>)
    ensures
        out@ == text@,
{
    let mut out: Vec<char> = Vec::new();
    for c in it: text.chars()
        invariant
            out@ == it.seq().take(it.index() as int),
            it.seq() == text@,
    {
        out.push(c);
    }
    out
}

/// The string with the characters `from..to` of `chars`.
pub fn string_of(chars: &Vec<char>, from: usize, to: usize) -> (out: String)
    requires
        from <= to <= chars@.len(),
    ensures
        out@ == chars@.subrange(from as int, to as int),
{
    let mut out = String::new();
    let mut i: usize = from;
    while i < to
        invariant
            from <= i <= to <= chars@.len(),
            out@ == chars@.subrange(from as int, i as int),
        decreases to - i,
    {
        out.push(chars[i]);
        i += 1;
    }
    out
}

/// Whether two texts hold the same characters.
pub fn same_text(a: &str, b: &str) -> (result: bool)
    ensures
        result == (a@ == b@),
{
    let left = chars_of(a);
    let right = chars_of(b);
    if left.len() != right.len() {
        return false;
    }
    let mut i: usize = 0;
    while i < left.len()
        invariant
            left@ == a@,
            right@ == b@,
            left@.len() == right@.len(),
            0 <= i <= left@.len(),
            forall|k: int| 0 <= k < i ==> left@[k] == right@[k],
        decreases left@.len() - i,
    {
        if left[i] != right[i] {
            return false;
        }
        i += 1;
    }
    assert(a@ =~= b@);
    true
}

/// Whether `text` begins with `prefix`.
pub fn starts_with(text: &str, prefix: &str) -> (result: bool)
    ensures
        result == prefix@.is_prefix_of(text@),
{
    let left = chars_of(text);
    let right = chars_of(prefix);
    if left.len() < right.len() {
        return false;
    }
    let mut i: usize = 0;
    while i < right.len()
        invariant
            left@ == text@,
            right@ == prefix@,
            right@.len() <= left@.len(),
            0 <= i <= right@.len(),
            forall|k: int| 0 <= k < i ==> left@[k] == right@[k],
        decreases right@.len() - i,
    {
        if left[i] != right[i] {
            return false;
        }
        i += 1;
    }
    assert(prefix@ =~= text@.subrange(0, prefix@.len() as int));
    true
}

/// What follows `prefix` in `text`, if the text begins with it.
pub fn strip_prefix(text: &str, prefix: &str) -> (rest: Option<String>)
    ensures
        rest is Some <==> prefix@.is_prefix_of(text@),
        rest matches Some(rest) ==> rest@ == text@.skip(prefix@.len() as int),
{
    if !starts_with(text, prefix) {
        return None;
    }
    let chars = chars_of(text);
    let from: usize = prefix.unicode_len();
    let rest = string_of(&chars, from, chars.len());
    proof {
        assert(rest@ =~= text@.skip(from as int));
    }
    Some(rest)
}

/// `text` without `suffix` at its end.
pub open spec fn without_suffix(text: Seq<char>, suffix: Seq<char>) -> Seq<char> {
    if suffix.is_suffix_of(text) {
        text.take(text.len() - suffix.len())
    } else {
        text
    }
}

/// `text` without `suffix` at its end.
pub fn trim_suffix(text: &str, suffix: &str) -> (rest: String)
    ensures
        rest@ == without_suffix(text@, suffix@),
{
    let chars = chars_of(text);
    let tail = chars_of(suffix);
    if tail.len() > chars.len() {
        return text.to_owned();
    }
    let at: usize = chars.len() - tail.len();
    let end = string_of(&chars, at, chars.len());
    let rest = string_of(&chars, 0, at);
    proof {
        assert(rest@ =~= text@.take(at as int));
        assert(suffix@.is_suffix_of(text@) <==> end@ == suffix@);
    }
    if same_text(end.as_str(), suffix) {
        rest
    } else {
        text.to_owned()
    }
}

/// The uppercase form of `text`, as `str::to_uppercase` gives it.
pub uninterp spec fn uppercase(text: Seq<char>) -> Seq<char>;

/// The lowercase form of `text`, as `str::to_lowercase` gives it.
pub uninterp spec fn lowercase(text: Seq<char>) -> Seq<char>;

/// The uppercase form of an ASCII character.
pub open spec fn ascii_uppercase(c: char) -> char {
    if 'a' <= c <= 'z' {
        (c as u32 - 32) as char
    } else {
        c
    }
}

/// The lowercase form of an ASCII character.
pub open spec fn ascii_lowercase(c: char) -> char {
    if 'A' <= c <= 'Z' {
        (c as u32 + 32) as char
    } else {
        c
    }
}

/// `str::to_uppercase` goes by the Unicode tables. On ASCII text they change
/// the letters `a` to `z` and nothing else.
pub assume_specification[ str::to_uppercase ](text: &str) -> (result: String)
    ensures
        result@ == uppercase(text@),
        is_ascii_chars(text@) ==> result@ == text@.map_values(|c: char| ascii_uppercase(c)),
;

/// `str::to_lowercase` goes by the Unicode tables. On ASCII text they change
/// the letters `A` to `Z` and nothing else.
pub assume_specification[ str::to_lowercase ](text: &str) -> (result: String)
    ensures
        result@ == lowercase(text@),
        is_ascii_chars(text@) ==> result@ == text@.map_values(|c: char| ascii_lowercase(c)),
;

/// `c` with an ASCII letter made lowercase.
fn lower_ascii(c: char) -> (result: char)
    ensures
        result == ascii_lowercase(c),
{
    if 'A' <= c && c <= 'Z' {
        let n: u8 = c as u8;
        (n + 32) as char
    } else {
        c
    }
}

/// Whether two texts are the same up to the case of ASCII letters.
pub open spec fn same_ignoring_ascii_case(a: Seq<char>, b: Seq<char>) -> bool {
    a.map_values(|c: char| ascii_lowercase(c)) == b.map_values(|c: char| ascii_lowercase(c))
}

/// Whether two texts are the same up to the case of ASCII letters.
pub fn eq_ignore_ascii_case(a: &str, b: &str) -> (result: bool)
    ensures
        result == same_ignoring_ascii_case(a@, b@),
{
    let left = chars_of(a);
    let right = chars_of(b);
    let ghost low_a = a@.map_values(|c: char| ascii_lowercase(c));
    let ghost low_b = b@.map_values(|c: char| ascii_lowercase(c));
    if left.len() != right.len() {
        assert(low_a.len() != low_b.len());
        return false;
    }
    let mut i: usize = 0;
    while i < left.len()
        invariant
            left@ == a@,
            right@ == b@,
            left@.len() == right@.len(),
            low_a == a@.map_values(|c: char| ascii_lowercase(c)),
            low_b == b@.map_values(|c: char| ascii_lowercase(c)),
            0 <= i <= left@.len(),
            forall|k: int| 0 <= k < i ==> low_a[k] == low_b[k],
        decreases left@.len() - i,
    {
        if lower_ascii(left[i]) != lower_ascii(right[i]) {
            assert(low_a[i as int] != low_b[i as int]);
            return false;
        }
        i += 1;
    }
    assert(low_a =~= low_b);
    true
}

/// Whether `c` is one of the digits `0` to `9`.
pub open spec fn digit(c: char) -> bool {
    '0' <= c <= '9'
}

/// The number that the decimal digits stand for.
pub open spec fn digits_value(digits: Seq<char>) -> nat
    decreases digits.len(),
{
    if digits.len() == 0 {
        0
    } else {
        (digits_value(digits.drop_last()) * 10 + (digits.last() as u32 - '0' as u32)) as nat
    }
}

/// `text` without a `+` in front.
pub open spec fn without_plus(text: Seq<char>) -> Seq<char> {
    if text.len() > 0 && text[0] == '+' {
        text.drop_first()
    } else {
        text
    }
}

/// Whether all characters are digits.
pub open spec fn all_digits(text: Seq<char>) -> bool {
    forall|i: int| 0 <= i < text.len() ==> digit(#[trigger] text[i])
}

/// The number that `text` stands for: at least one digit, with an optional `+`
/// in front.
pub open spec fn decimal(text: Seq<char>) -> Option<nat> {
    let digits = without_plus(text);
    if digits.len() > 0 && all_digits(digits) {
        Some(digits_value(digits))
    } else {
        None
    }
}

proof fn digits_value_grows(digits: Seq<char>, count: int)
    requires
        0 <= count <= digits.len(),
        all_digits(digits),
    ensures
        digits_value(digits.take(count)) <= digits_value(digits),
    decreases digits.len(),
{
    if count < digits.len() {
        let front = digits.drop_last();
        assert forall|i: int| 0 <= i < front.len() implies digit(#[trigger] front[i]) by {
            assert(front[i] == digits[i]);
        }
        digits_value_grows(front, count);
        assert(front.take(count) =~= digits.take(count));
        assert(digit(digits[digits.len() - 1]));
    } else {
        assert(digits.take(count) =~= digits);
    }
}

/// The number that `text` stands for, unless it exceeds `max`.
pub fn parse_decimal(text: &str, max: u64) -> (number: Option<u64>)
    ensures
        number is Some <==> decimal(text@) is Some && decimal(text@)->0 <= max,
        number matches Some(n) ==> n == decimal(text@)->0,
{
    let chars = chars_of(text);
    let mut i: usize = 0;
    if chars.len() > 0 && chars[0] == '+' {
        i = 1;
    }
    let ghost digits = chars@.skip(i as int);
    let from: usize = i;
    proof {
        assert(digits =~= without_plus(text@));
        assert(digits.take(0) =~= Seq::<char>::empty());
    }
    if i == chars.len() {
        return None;
    }
    let mut n: u64 = 0;
    while i < chars.len()
        invariant
            from <= i <= chars@.len(),
            digits == chars@.skip(from as int),
            n == digits_value(digits.take(i - from)),
            n <= max,
            digits.len() > 0,
            digits == without_plus(text@),
            forall|k: int| 0 <= k < i - from ==> digit(#[trigger] digits[k]),
        decreases chars@.len() - i,
    {
        let c = chars[i];
        assert(digits[i - from] == c);
        if !('0' <= c && c <= '9') {
            return None;
        }
        let d: u64 = c as u64 - '0' as u64;
        proof {
            assert(digits.take(i - from + 1).drop_last() =~= digits.take(i - from));
            assert(digits_value(digits.take(i - from + 1)) == n * 10 + d);
            if all_digits(digits) {
                digits_value_grows(digits, i - from + 1);
            }
        }
        if d > max || n > (max - d) / 10 {
            assert(n * 10 + d > max);
            return None;
        }
        n = n * 10 + d;
        i += 1;
    }
    proof {
        assert(digits.take(i - from) =~= digits);
    }
    Some(n)
}

/// The digit for a number below ten.
pub open spec fn digit_char(n: nat) -> char {
    ('0' as u32 + n) as char
}

/// The decimal digits of a number.
pub open spec fn decimal_digits(n: nat) -> Seq<char>
    decreases n,
{
    if n < 10 {
        seq![digit_char(n)]
    } else {
        decimal_digits(n / 10).push(digit_char(n % 10))
    }
}

/// The decimal digits of a number.
pub fn decimal_text(n: u64) -> (text: String)
    ensures
        text@ == decimal_digits(n as nat),
    decreases n,
{
    let mut text = if n < 10 {
        String::new()
    } else {
        decimal_text(n / 10)
    };
    let d: u8 = (n % 10) as u8;
    let c = (48 + d) as char;
    text.push(c);
    proof {
        assert(n < 10 ==> text@ =~= seq![digit_char(n as nat)]);
    }
    text
}

/// The decimal form of a number, with a `-` in front if it is negative.
pub open spec fn signed_digits(n: int) -> Seq<char> {
    if n < 0 {
        seq!['-'] + decimal_digits((-n) as nat)
    } else {
        decimal_digits(n as nat)
    }
}

/// The decimal form of a number, with a `-` in front if it is negative.
pub fn signed_text(n: i64) -> (text: String)
    ensures
        text@ == signed_digits(n as int),
{
    if n < 0 {
        let mut text = String::new();
        text.push('-');
        let positive: u64 = (-(n as i128)) as u64;
        text.append(decimal_text(positive).as_str());
        proof {
            assert(text@ =~= signed_digits(n as int));
        }
        text
    } else {
        decimal_text(n as u64)
    }
}

/// Writing a number out and reading it back gives the number.
pub proof fn decimal_round_trip(n: nat)
    ensures
        decimal(decimal_digits(n)) == Some(n),
{
    decimal_digits_value(n);
}

/// Numbers that are written the same are the same, and none is written as a
/// sign alone.
pub proof fn signed_digits_injective(a: int, b: int)
    ensures
        signed_digits(a) == signed_digits(b) ==> a == b,
        signed_digits(a) != seq!['-'],
{
    let (m, n) = (if a < 0 { -a } else { a }, if b < 0 { -b } else { b });
    decimal_digits_value(m as nat);
    decimal_digits_value(n as nat);
    assert(digit(decimal_digits(m as nat)[0]) && digit(decimal_digits(n as nat)[0]));
    if a < 0 {
        assert(signed_digits(a).skip(1) =~= decimal_digits(m as nat));
        assert(signed_digits(a)[0] == '-' && signed_digits(a).len() > 1);
    }
    if b < 0 {
        assert(signed_digits(b).skip(1) =~= decimal_digits(n as nat));
        assert(signed_digits(b)[0] == '-');
    }
}

proof fn decimal_digits_value(n: nat)
    ensures
        digits_value(decimal_digits(n)) == n,
        all_digits(decimal_digits(n)),
        decimal_digits(n).len() > 0,
        decimal_digits(n)[0] != '+',
    decreases n,
{
    reveal_with_fuel(digits_value, 2);
    if n >= 10 {
        decimal_digits_value(n / 10);
        let front = decimal_digits(n / 10);
        assert(front.push(digit_char(n % 10)).drop_last() =~= front);
    } else {
        assert(decimal_digits(n).drop_last() =~= Seq::<char>::empty());
    }
}

/// `text` without its leading white space.
pub open spec fn trimmed_start(text: Seq<char>) -> Seq<char>
    decreases text.len(),
{
    if text.len() > 0 && white_space(text[0]) {
        trimmed_start(text.drop_first())
    } else {
        text
    }
}

/// `text` without its trailing white space.
pub open spec fn trimmed_end(text: Seq<char>) -> Seq<char>
    decreases text.len(),
{
    if text.len() > 0 && white_space(text.last()) {
        trimmed_end(text.drop_last())
    } else {
        text
    }
}

/// `text` without the white space at either end.
pub open spec fn trimmed(text: Seq<char>) -> Seq<char> {
    trimmed_end(trimmed_start(text))
}

/// `text` without the white space at either end.
pub fn trim(text: &str) -> (result: String)
    ensures
        result@ == trimmed(text@),
{
    let chars = chars_of(text);
    let mut from: usize = 0;
    proof {
        assert(chars@.skip(0) =~= chars@);
    }
    while from < chars.len() && is_white_space(chars[from])
        invariant
            0 <= from <= chars@.len(),
            trimmed_start(chars@) == trimmed_start(chars@.skip(from as int)),
        decreases chars@.len() - from,
    {
        proof {
            assert(chars@.skip(from as int).drop_first() =~= chars@.skip(from + 1));
        }
        from += 1;
    }
    let mut to: usize = chars.len();
    while to > from && is_white_space(chars[to - 1])
        invariant
            from <= to <= chars@.len(),
            trimmed_end(chars@.skip(from as int)) == trimmed_end(
                chars@.subrange(from as int, to as int),
            ),
        decreases to,
    {
        proof {
            assert(chars@.subrange(from as int, to as int).drop_last() =~= chars@.subrange(
                from as int,
                to - 1,
            ));
        }
        to -= 1;
    }
    string_of(&chars, from, to)
}

/// The pieces of `text` between the occurrences of `separator`. There is one
/// piece more than there are separators, so there is always at least one.
pub open spec fn pieces(text: Seq<char>, separator: char) -> Seq<Seq<char>>
    decreases text.len(),
{
    if text.len() == 0 {
        seq![Seq::<char>::empty()]
    } else {
        let before = pieces(text.drop_last(), separator);
        if text.last() == separator {
            before.push(Seq::<char>::empty())
        } else {
            before.drop_last().push(before.last().push(text.last()))
        }
    }
}

/// The pieces of `text` between the occurrences of `separator`.
pub fn split(text: &str, separator: char) -> (parts: Vec<String>)
    ensures
        views(parts@) == pieces(text@, separator),
{
    let chars = chars_of(text);
    let mut parts: Vec<String> = Vec::new();
    let mut piece = String::new();
    let mut i: usize = 0;
    proof {
        assert(views(parts@).push(piece@) =~= seq![Seq::<char>::empty()]);
        assert(chars@.take(0) =~= Seq::<char>::empty());
    }
    while i < chars.len()
        invariant
            0 <= i <= chars@.len(),
            views(parts@).push(piece@) == pieces(chars@.take(i as int), separator),
        decreases chars@.len() - i,
    {
        let c = chars[i];
        proof {
            assert(chars@.take(i + 1).drop_last() =~= chars@.take(i as int));
            assert(views(parts@).push(piece@).drop_last() =~= views(parts@));
        }
        if c == separator {
            let ghost before = parts@;
            parts.push(piece);
            proof {
                assert(views(parts@) =~= views(before).push(piece@));
            }
            piece = String::new();
        } else {
            piece.push(c);
        }
        i += 1;
    }
    let ghost before = parts@;
    parts.push(piece);
    proof {
        assert(views(parts@) =~= views(before).push(piece@));
        assert(chars@.take(chars@.len() as int) =~= text@);
    }
    parts
}

/// The maximal runs of characters of `text` that are not white space.
pub open spec fn words(text: Seq<char>) -> Seq<Seq<char>>
    decreases text.len(),
{
    if text.len() == 0 {
        Seq::empty()
    } else {
        let before = words(text.drop_last());
        let c = text.last();
        if white_space(c) {
            before
        } else if text.len() == 1 || white_space(text[text.len() - 2]) {
            before.push(seq![c])
        } else {
            before.drop_last().push(before.last().push(c))
        }
    }
}

/// The maximal runs of characters of `text` that are not white space.
pub fn split_words(text: &str) -> (parts: Vec<String>)
    ensures
        views(parts@) == words(text@),
{
    let chars = chars_of(text);
    let mut parts: Vec<String> = Vec::new();
    let mut word = String::new();
    let mut in_word = false;
    let mut i: usize = 0;
    proof {
        assert(views(parts@) =~= words(chars@.take(0)));
    }
    while i < chars.len()
        invariant
            0 <= i <= chars@.len(),
            in_word == (i > 0 && !white_space(chars@[i - 1])),
            !in_word ==> word@.len() == 0 && views(parts@) == words(chars@.take(i as int)),
            in_word ==> views(parts@).push(word@) == words(chars@.take(i as int)),
        decreases chars@.len() - i,
    {
        let c = chars[i];
        proof {
            assert(chars@.take(i + 1).drop_last() =~= chars@.take(i as int));
            assert(views(parts@).push(word@).drop_last() =~= views(parts@));
            assert(word@.len() == 0 ==> word@.push(c) =~= seq![c]);
        }
        if is_white_space(c) {
            if in_word {
                let ghost before = parts@;
                parts.push(word);
                proof {
                    assert(views(parts@) =~= views(before).push(word@));
                }
                word = String::new();
            }
            in_word = false;
        } else {
            word.push(c);
            in_word = true;
        }
        i += 1;
    }
    proof {
        assert(chars@.take(chars@.len() as int) =~= text@);
    }
    if in_word {
        let ghost before = parts@;
        parts.push(word);
        proof {
            assert(views(parts@) =~= views(before).push(word@));
        }
    }
    parts
}

/// The parts one after another, with `separator` between any two.
pub open spec fn joined(parts: Seq<Seq<char>>, separator: Seq<char>) -> Seq<char>
    decreases parts.len(),
{
    if parts.len() == 0 {
        Seq::empty()
    } else if parts.len() == 1 {
        parts[0]
    } else {
        joined(parts.drop_last(), separator) + separator + parts.last()
    }
}

/// The parts one after another, with `separator` between any two.
pub fn join(parts: &Vec<String>, separator: &str) -> (out: String)
    ensures
        out@ == joined(views(parts@), separator@),
{
    let mut out = String::new();
    let mut i: usize = 0;
    while i < parts.len()
        invariant
            0 <= i <= parts@.len(),
            out@ == joined(views(parts@).take(i as int), separator@),
        decreases parts@.len() - i,
    {
        proof {
            assert(views(parts@).take(i + 1).drop_last() =~= views(parts@).take(i as int));
        }
        if i > 0 {
            out.append(separator);
        }
        out.append(parts[i].as_str());
        proof {
            assert(views(parts@).take(i + 1).last() == parts@[i as int]@);
            if i == 0 {
                assert(out@ =~= parts@[0]@);
            }
        }
        i += 1;
    }
    proof {
        assert(views(parts@).take(parts@.len() as int) =~= views(parts@));
    }
    out
}

/// Trimming takes white space off both ends and nothing else: what is left is a
/// stretch of the text that neither begins nor ends with white space, and all
/// that was taken off is white space.
pub proof fn trimming_takes_off_outer_space(text: Seq<char>)
    ensures
        exists|from: int, to: int|
            0 <= from <= to <= text.len() && trimmed(text) == #[trigger] text.subrange(from, to)
                && (forall|k: int|
                0 <= k < text.len() && !(from <= k < to) ==> white_space(#[trigger] text[k])) && (
            from < to ==> !white_space(text[from]) && !white_space(text[to - 1])),
{
    let from = start_of_trimmed(text);
    let rest = text.skip(from);
    let len = end_of_trimmed(rest);
    assert(rest.take(len) =~= text.subrange(from, from + len));
    assert forall|k: int| 0 <= k < text.len() && !(from <= k < from + len) implies white_space(
        #[trigger] text[k],
    ) by {
        if k >= from + len {
            assert(rest[k - from] == text[k]);
        }
    }
    if len > 0 {
        assert(rest[0] == text[from]);
        assert(rest[len - 1] == text[from + len - 1]);
    }
}

proof fn start_of_trimmed(text: Seq<char>) -> (from: int)
    ensures
        0 <= from <= text.len(),
        trimmed_start(text) == text.skip(from),
        forall|k: int| 0 <= k < from ==> white_space(#[trigger] text[k]),
        from < text.len() ==> !white_space(text[from]),
    decreases text.len(),
{
    if text.len() > 0 && white_space(text[0]) {
        let rest = text.drop_first();
        let from = start_of_trimmed(rest);
        assert(rest.skip(from) =~= text.skip(from + 1));
        assert forall|k: int| 0 <= k < from + 1 implies white_space(#[trigger] text[k]) by {
            if k > 0 {
                assert(rest[k - 1] == text[k]);
            }
        }
        if from < rest.len() {
            assert(rest[from] == text[from + 1]);
        }
        from + 1
    } else {
        assert(text.skip(0) =~= text);
        0
    }
}

proof fn end_of_trimmed(text: Seq<char>) -> (to: int)
    ensures
        0 <= to <= text.len(),
        trimmed_end(text) == text.take(to),
        forall|k: int| to <= k < text.len() ==> white_space(#[trigger] text[k]),
        to > 0 ==> !white_space(text[to - 1]),
        text.len() > 0 && !white_space(text[0]) ==> to > 0,
    decreases text.len(),
{
    if text.len() > 0 && white_space(text.last()) {
        let rest = text.drop_last();
        let to = end_of_trimmed(rest);
        assert(rest.take(to) =~= text.take(to));
        assert forall|k: int| to <= k < text.len() implies white_space(#[trigger] text[k]) by {
            if k < rest.len() {
                assert(rest[k] == text[k]);
            }
        }
        if to > 0 {
            assert(rest[to - 1] == text[to - 1]);
        }
        to
    } else {
        assert(text.take(text.len() as int) =~= text);
        text.len() as int
    }
}

/// Trimming leaves nothing exactly where there is nothing but white space.
pub proof fn only_blank_text_trims_to_nothing(text: Seq<char>)
    ensures
        trimmed(text).len() == 0 <==> (forall|k: int|
            0 <= k < text.len() ==> white_space(#[trigger] text[k])),
{
    trimming_takes_off_outer_space(text);
    let (from, to) = choose|from: int, to: int|
        0 <= from <= to <= text.len() && trimmed(text) == #[trigger] text.subrange(from, to) && (
        forall|k: int|
            0 <= k < text.len() && !(from <= k < to) ==> white_space(#[trigger] text[k])) && (from
            < to ==> !white_space(text[from]) && !white_space(text[to - 1]));
    if from < to {
        assert(!white_space(text[from]));
    }
}

/// The white space is the 25 characters that Unicode counts as such.
pub proof fn the_white_space(c: char)
    ensures
        white_space(c) <==> seq![
            '\u{9}',
            '\u{a}',
            '\u{b}',
            '\u{c}',
            '\u{d}',
            ' ',
            '\u{85}',
            '\u{a0}',
            '\u{1680}',
            '\u{2000}',
            '\u{2001}',
            '\u{2002}',
            '\u{2003}',
            '\u{2004}',
            '\u{2005}',
            '\u{2006}',
            '\u{2007}',
            '\u{2008}',
            '\u{2009}',
            '\u{200a}',
            '\u{2028}',
            '\u{2029}',
            '\u{202f}',
            '\u{205f}',
            '\u{3000}',
        ].contains(c),
{
    let all = seq![
        '\u{9}',
        '\u{a}',
        '\u{b}',
        '\u{c}',
        '\u{d}',
        ' ',
        '\u{85}',
        '\u{a0}',
        '\u{1680}',
        '\u{2000}',
        '\u{2001}',
        '\u{2002}',
        '\u{2003}',
        '\u{2004}',
        '\u{2005}',
        '\u{2006}',
        '\u{2007}',
        '\u{2008}',
        '\u{2009}',
        '\u{200a}',
        '\u{2028}',
        '\u{2029}',
        '\u{202f}',
        '\u{205f}',
        '\u{3000}',
    ];
    if white_space(c) {
        let n = c as u32;
        let at: int = if n <= 0xd {
            n - 0x9
        } else if n == 0x20 {
            5
        } else if n == 0x85 {
            6
        } else if n == 0xa0 {
            7
        } else if n == 0x1680 {
            8
        } else if n <= 0x200a {
            9 + (n - 0x2000)
        } else if n == 0x2028 {
            20
        } else if n == 0x2029 {
            21
        } else if n == 0x202f {
            22
        } else if n == 0x205f {
            23
        } else {
            24
        };
        assert(all[at] == c);
    }
}

/// A separator between two texts parts their pieces, and a text without a
/// separator is one piece.
pub proof fn pieces_part_at_the_separator(a: Seq<char>, b: Seq<char>, separator: char)
    ensures
        pieces(a.push(separator) + b, separator) == pieces(a, separator) + pieces(b, separator),
        !a.contains(separator) ==> pieces(a, separator) == seq![a],
    decreases a.len() + b.len(),
{
    pieces_are_some(a, separator);
    if !a.contains(separator) {
        if a.len() > 0 {
            let front = a.drop_last();
            assert(!front.contains(separator)) by {
                if front.contains(separator) {
                    let k = choose|k: int| 0 <= k < front.len() && front[k] == separator;
                    assert(a[k] == separator);
                }
            }
            pieces_part_at_the_separator(front, Seq::empty(), separator);
            assert(a[a.len() - 1] != separator);
            assert(front.push(a.last()) =~= a);
            assert(pieces(a, separator) =~= seq![a]);
        } else {
            assert(a =~= Seq::<char>::empty());
        }
    }
    let whole = a.push(separator) + b;
    if b.len() == 0 {
        assert(whole.drop_last() =~= a);
        assert(pieces(whole, separator) =~= pieces(a, separator) + pieces(b, separator));
    } else {
        let front = b.drop_last();
        assert(whole.drop_last() =~= a.push(separator) + front);
        pieces_part_at_the_separator(a, front, separator);
        pieces_are_some(front, separator);
        assert(pieces(whole, separator) =~= pieces(a, separator) + pieces(b, separator));
    }
}

proof fn pieces_are_some(text: Seq<char>, separator: char)
    ensures
        pieces(text, separator).len() > 0,
    decreases text.len(),
{
    if text.len() > 0 {
        pieces_are_some(text.drop_last(), separator);
    }
}

/// Joining parts one after another joins them all; one part is joined to itself
/// and none to nothing.
pub proof fn joining_in_two_steps(a: Seq<Seq<char>>, b: Seq<Seq<char>>, separator: Seq<char>)
    ensures
        a.len() > 0 && b.len() > 0 ==> joined(a + b, separator) == joined(a, separator) + separator
            + joined(b, separator),
        a.len() == 1 ==> joined(a, separator) == a[0],
        a.len() == 0 ==> joined(a, separator).len() == 0,
    decreases b.len(),
{
    if a.len() > 0 && b.len() > 0 {
        assert((a + b).drop_last() =~= a + b.drop_last());
        if b.len() == 1 {
            assert(a + b.drop_last() =~= a);
        } else {
            joining_in_two_steps(a, b.drop_last(), separator);
            assert(joined(a + b, separator) =~= joined(a, separator) + separator + joined(
                b,
                separator,
            ));
        }
    }
}

/// Splitting and joining undo each other: the pieces of a text make up the text
/// again, none of them holds the separator, and parts without it come apart as
/// they were.
pub proof fn splitting_undoes_joining(text: Seq<char>, parts: Seq<Seq<char>>, separator: char)
    ensures
        joined(pieces(text, separator), seq![separator]) == text,
        forall|i: int|
            0 <= i < pieces(text, separator).len() ==> !(#[trigger] pieces(
                text,
                separator,
            )[i]).contains(separator),
        parts.len() > 0 && (forall|i: int|
            0 <= i < parts.len() ==> !(#[trigger] parts[i]).contains(separator)) ==> pieces(
            joined(parts, seq![separator]),
            separator,
        ) == parts,
{
    pieces_make_up_the_text(text, separator);
    if parts.len() > 0 && (forall|i: int|
        0 <= i < parts.len() ==> !(#[trigger] parts[i]).contains(separator)) {
        parts_come_apart(parts, separator);
    }
}

proof fn pieces_make_up_the_text(text: Seq<char>, separator: char)
    ensures
        joined(pieces(text, separator), seq![separator]) == text,
        forall|i: int|
            0 <= i < pieces(text, separator).len() ==> !(#[trigger] pieces(
                text,
                separator,
            )[i]).contains(separator),
    decreases text.len(),
{
    let all = pieces(text, separator);
    if text.len() == 0 {
        assert(joined(all, seq![separator]) =~= text);
    } else {
        let front = text.drop_last();
        let before = pieces(front, separator);
        pieces_are_some(front, separator);
        pieces_make_up_the_text(front, separator);
        assert(front.push(text.last()) =~= text);
        if text.last() == separator {
            assert(all.drop_last() =~= before);
            assert(joined(all, seq![separator]) =~= text);
        } else {
            assert(all.drop_last() =~= before.drop_last());
            assert(joined(all, seq![separator]) =~= joined(before, seq![separator]).push(
                text.last(),
            ));
        }
        assert forall|i: int| 0 <= i < all.len() implies !(#[trigger] all[i]).contains(
            separator,
        ) by {
            if all[i].contains(separator) {
                let k = choose|k: int| 0 <= k < all[i].len() && all[i][k] == separator;
                if i < before.len() {
                    assert(!before[i].contains(separator));
                    if k < before[i].len() {
                        assert(before[i][k] == separator);
                    }
                }
            }
        }
    }
}

proof fn parts_come_apart(parts: Seq<Seq<char>>, separator: char)
    requires
        parts.len() > 0,
        forall|i: int| 0 <= i < parts.len() ==> !(#[trigger] parts[i]).contains(separator),
    ensures
        pieces(joined(parts, seq![separator]), separator) == parts,
    decreases parts.len(),
{
    let last = parts.last();
    assert(!parts[parts.len() - 1].contains(separator));
    pieces_part_at_the_separator(last, Seq::empty(), separator);
    if parts.len() == 1 {
        assert(parts =~= seq![last]);
    } else {
        let front = parts.drop_last();
        assert forall|i: int| 0 <= i < front.len() implies !(#[trigger] front[i]).contains(
            separator,
        ) by {
            assert(front[i] == parts[i]);
        }
        parts_come_apart(front, separator);
        let text = joined(front, seq![separator]);
        assert(joined(parts, seq![separator]) =~= text.push(separator) + last);
        pieces_part_at_the_separator(text, last, separator);
        assert(front + seq![last] =~= parts);
    }
}

/// White space between two texts parts their words; a text without any is one
/// word, unless it is empty.
pub proof fn words_part_at_white_space(a: Seq<char>, b: Seq<char>, gap: char)
    requires
        white_space(gap),
    ensures
        words(a.push(gap) + b) == words(a) + words(b),
        a.len() == 0 ==> words(a).len() == 0,
        a.len() > 0 && (forall|k: int| 0 <= k < a.len() ==> !white_space(#[trigger] a[k]))
            ==> words(a) == seq![a],
    decreases a.len() + b.len(),
{
    if a.len() > 0 && (forall|k: int| 0 <= k < a.len() ==> !white_space(#[trigger] a[k])) {
        let front = a.drop_last();
        assert forall|k: int| 0 <= k < front.len() implies !white_space(#[trigger] front[k]) by {
            assert(front[k] == a[k]);
        }
        words_part_at_white_space(front, Seq::empty(), gap);
        assert(!white_space(a[a.len() - 1]));
        assert(front.push(a.last()) =~= a);
        if front.len() > 0 {
            assert(!white_space(a[a.len() - 2]));
            assert(words(front) == seq![front]);
            assert(words(front).last() == front);
        } else {
            assert(a =~= seq![a.last()]);
        }
        assert(words(a) =~= seq![a]);
    }
    let whole = a.push(gap) + b;
    if b.len() == 0 {
        assert(whole.drop_last() =~= a);
        assert(words(whole) =~= words(a) + words(b));
    } else {
        let front = b.drop_last();
        assert(whole.drop_last() =~= a.push(gap) + front);
        words_part_at_white_space(a, front, gap);
        if b.len() > 1 {
            assert(whole[whole.len() - 2] == b[b.len() - 2]);
            if !white_space(b[b.len() - 2]) {
                words_end_with_the_text(front);
            }
        } else {
            assert(whole[whole.len() - 2] == gap);
        }
        assert(words(whole) =~= words(a) + words(b));
    }
}

proof fn words_end_with_the_text(text: Seq<char>)
    requires
        text.len() > 0,
        !white_space(text.last()),
    ensures
        words(text).len() > 0,
{
}

/// No word is empty or holds white space, and the words hold every other
/// character of the text, in order.
pub proof fn words_hold_the_text(text: Seq<char>)
    ensures
        forall|i: int|
            0 <= i < words(text).len() ==> (#[trigger] words(text)[i]).len() > 0 && forall|k: int|
                0 <= k < words(text)[i].len() ==> !white_space(#[trigger] words(text)[i][k]),
        words(text).flatten() == text.filter(|c: char| !white_space(c)),
    decreases text.len(),
{
    reveal(Seq::filter);
    let dark = |c: char| !white_space(c);
    let all = words(text);
    if text.len() == 0 {
        assert(all.flatten() =~= text.filter(dark));
    } else {
        let front = text.drop_last();
        let c = text.last();
        let before = words(front);
        words_hold_the_text(front);
        if !white_space(c) {
            if text.len() == 1 || white_space(text[text.len() - 2]) {
                before.lemma_flatten_push(seq![c]);
                assert(all.flatten() =~= before.flatten().push(c));
            } else {
                assert(front.last() == text[text.len() - 2]);
                words_end_with_the_text(front);
                let rest = before.drop_last();
                rest.lemma_flatten_push(before.last());
                rest.lemma_flatten_push(before.last().push(c));
                assert(rest.push(before.last()) =~= before);
                assert(all.flatten() =~= before.flatten().push(c));
            }
            assert forall|i: int| 0 <= i < all.len() implies (#[trigger] all[i]).len() > 0
                && forall|k: int|
                0 <= k < all[i].len() ==> !white_space(#[trigger] all[i][k]) by {
                assert forall|k: int| 0 <= k < all[i].len() implies !white_space(
                    #[trigger] all[i][k],
                ) by {
                    if i < before.len() && k < before[i].len() {
                        assert(before[i][k] == all[i][k]);
                    }
                }
            }
        }
    }
}

/// Two texts are the same up to case exactly if they are as long and differ, if
/// at all, in the case of ASCII letters.
pub proof fn case_is_all_that_may_differ(a: Seq<char>, b: Seq<char>)
    ensures
        same_ignoring_ascii_case(a, b) <==> a.len() == b.len() && forall|i: int|
            0 <= i < a.len() ==> {
                ||| #[trigger] a[i] == b[i]
                ||| 'A' <= a[i] <= 'Z' && b[i] as u32 == a[i] as u32 + 32
                ||| 'A' <= b[i] <= 'Z' && a[i] as u32 == b[i] as u32 + 32
            },
{
    let low_a = a.map_values(|c: char| ascii_lowercase(c));
    let low_b = b.map_values(|c: char| ascii_lowercase(c));
    if low_a == low_b {
        assert(low_a.len() == a.len() && low_b.len() == b.len());
        assert forall|i: int| 0 <= i < a.len() implies {
            ||| #[trigger] a[i] == b[i]
            ||| 'A' <= a[i] <= 'Z' && b[i] as u32 == a[i] as u32 + 32
            ||| 'A' <= b[i] <= 'Z' && a[i] as u32 == b[i] as u32 + 32
        } by {
            assert(low_a[i] == low_b[i]);
        }
    }
    if a.len() == b.len() && forall|i: int|
        0 <= i < a.len() ==> {
            ||| #[trigger] a[i] == b[i]
            ||| 'A' <= a[i] <= 'Z' && b[i] as u32 == a[i] as u32 + 32
            ||| 'A' <= b[i] <= 'Z' && a[i] as u32 == b[i] as u32 + 32
        } {
        assert forall|i: int| 0 <= i < a.len() implies low_a[i] == low_b[i] by {
            assert(a[i] == a[i]);
        }
        assert(low_a =~= low_b);
    }
}

/// A digit more makes a number ten times as large and adds the digit; a plus
/// sign in front changes nothing; and only digits make a number.
pub proof fn decimal_by_digits(text: Seq<char>, c: char)
    ensures
        digit(c) && decimal(text) is Some ==> decimal(text.push(c)) == Some(
            (decimal(text)->0 * 10 + (c as u32 - 0x30)) as nat,
        ),
        digit(c) ==> decimal(seq![c]) == Some((c as u32 - 0x30) as nat),
        text.len() > 0 && text[0] != '+' ==> decimal(seq!['+'] + text) == decimal(text),
        !digit(c) ==> decimal(text.push(c)) is None,
        decimal(Seq::<char>::empty()) is None,
{
    reveal_with_fuel(digits_value, 2);
    let longer = text.push(c);
    if decimal(text) is Some {
        let digits = without_plus(text);
        assert(without_plus(longer) =~= digits.push(c));
        if digit(c) {
            assert forall|i: int| 0 <= i < digits.push(c).len() implies digit(
                #[trigger] digits.push(c)[i],
            ) by {
                if i < digits.len() {
                    assert(digits.push(c)[i] == digits[i]);
                }
            }
            assert(digits.push(c).drop_last() =~= digits);
        }
    }
    if digit(c) {
        assert(without_plus(seq![c]) =~= seq![c]);
        assert(seq![c].drop_last() =~= Seq::<char>::empty());
    } else if decimal(longer) is Some {
        let digits = without_plus(longer);
        assert(digits[digits.len() - 1] == c);
        assert(false);
    }
    assert((seq!['+'] + text).drop_first() =~= text);
}

/// A number is written without a zero in front, unless it is zero.
pub proof fn numbers_have_no_leading_zero(n: nat)
    ensures
        n > 0 ==> decimal_digits(n)[0] != '0',
        n < 10 ==> decimal_digits(n).len() == 1,
        n >= 10 ==> decimal_digits(n).len() == decimal_digits(n / 10).len() + 1,
    decreases n,
{
    if n >= 10 {
        numbers_have_no_leading_zero(n / 10);
        decimal_digits_value(n / 10);
    }
}

/// Encoding a concatenation encodes the two parts one after the other.
pub proof fn encode_concat(a: Seq<char>, b: Seq<char>)
    ensures
        encode_utf8(a + b) == encode_utf8(a) + encode_utf8(b),
    decreases a.len(),
{
    if a.len() == 0 {
        assert(a + b =~= b);
    } else {
        assert((a + b).drop_first() =~= a.drop_first() + b);
        encode_concat(a.drop_first(), b);
        assert(encode_utf8(a + b) =~= encode_utf8(a) + encode_utf8(b));
    }
}

/// Texts with the same encoding are the same: a contract on the encoding of a
/// text fixes the text.
pub proof fn encode_injective(a: Seq<char>, b: Seq<char>)
    requires
        encode_utf8(a) == encode_utf8(b),
    ensures
        a == b,
{
    encode_utf8_decode_utf8(a);
    encode_utf8_decode_utf8(b);
}

/// A character boundary of `bytes` at or before `to` bounds the first `to`
/// bytes as well.
proof fn boundary_of_prefix(bytes: Seq<u8>, at: int, to: int)
    requires
        valid_utf8(bytes),
        is_char_boundary(bytes, at),
        is_char_boundary(bytes, to),
        0 <= at <= to <= bytes.len(),
    ensures
        valid_utf8(bytes.subrange(0, to)),
        is_char_boundary(bytes.subrange(0, to), at),
{
    let prefix = bytes.subrange(0, to);
    valid_utf8_split(bytes, to);
    if at == to {
        is_char_boundary_start_end_of_seq(prefix);
    } else {
        is_char_boundary_iff_not_is_continuation_byte(bytes, at);
        is_char_boundary_iff_not_is_continuation_byte(prefix, at);
    }
}

/// The text that `String::from_utf8_lossy` makes of any bytes.
pub uninterp spec fn utf8_lossy(bytes: Seq<u8>) -> Seq<char>;

/// `String::from_utf8_lossy` decodes bytes that are UTF-8, and puts a
/// replacement character in place of whatever is not.
#[verifier::external_body]
pub(crate) fn decode_lossy(bytes: &[u8]) -> (text: String)
    ensures
        text@ == utf8_lossy(bytes@),
        valid_utf8(bytes@) ==> text@ == decode_utf8(bytes@),
{
    String::from_utf8_lossy(bytes).into_owned()
}

/// The part of `text` between the byte offsets `from` and `to`.
pub fn slice<'a>(text: &'a str, from: usize, to: usize) -> (part: &'a str)
    requires
        from <= to <= encode_utf8(text@).len(),
        is_char_boundary(encode_utf8(text@), from as int),
        is_char_boundary(encode_utf8(text@), to as int),
    ensures
        encode_utf8(part@) == encode_utf8(text@).subrange(from as int, to as int),
{
    proof {
        encode_utf8_valid_utf8(text@);
        boundary_of_prefix(encode_utf8(text@), from as int, to as int);
    }
    let (head, _) = text.split_at(to);
    let (_, part) = head.split_at(from);
    proof {
        let bytes = encode_utf8(text@);
        assert(bytes.subrange(0, to as int).subrange(from as int, to as int) =~= bytes.subrange(
            from as int,
            to as int,
        ));
    }
    part
}

/// The views of a list are those of its strings, one for one.
pub proof fn views_one_for_one(parts: Seq<String>)
    ensures
        views(parts).len() == parts.len(),
        forall|i: int| 0 <= i < parts.len() ==> views(parts)[i] == (#[trigger] parts[i])@,
{
}

/// A suffix is taken off where the text ends with it, and only there.
pub proof fn suffixes_are_taken_off(text: Seq<char>, suffix: Seq<char>)
    ensures
        without_suffix(text + suffix, suffix) == text,
        without_suffix(text, suffix) == text || without_suffix(text, suffix) + suffix == text,
        (forall|rest: Seq<char>| #[trigger] (rest + suffix) != text) ==> without_suffix(text, suffix)
            == text,
{
    let whole = text + suffix;
    assert(suffix =~= whole.subrange(whole.len() - suffix.len(), whole.len() as int));
    assert(suffix.is_suffix_of(whole));
    assert(whole.take(whole.len() - suffix.len()) =~= text);
    if suffix.is_suffix_of(text) {
        let rest = text.take(text.len() - suffix.len());
        assert(rest + suffix =~= text);
    }
}

} // verus!
