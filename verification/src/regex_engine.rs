//! The `regex` crate as seen from the verified code.

use vstd::prelude::*;
use vstd::utf8::*;

verus! {

/// `regex::Regex`, a compiled pattern.
#[verifier::external_type_specification]
#[verifier::external_body]
pub struct ExRegex(regex::Regex);

/// `regex::Error`, the reason why a pattern was not compiled.
#[verifier::external_type_specification]
#[verifier::external_body]
pub struct ExRegexError(regex::Error);

/// The pattern that `Regex::new` compiled into `regex`, or `None` for a value
/// that was made in another way.
pub uninterp spec fn regex_source(regex: regex::Regex) -> Option<Seq<char>>;

/// Whether `Regex::new` compiles `pattern`. It refuses one whose program is too
/// large; how large a program is depends on the width of a pointer, so a pattern
/// close to the limit may compile on one machine and not on another. A run of
/// the library sees one width throughout.
pub uninterp spec fn regex_compiles(pattern: Seq<char>) -> bool;

/// The byte ranges that `Regex::find_iter` yields for `pattern` in `text`, in
/// the order in which it yields them.
pub uninterp spec fn regex_spans(pattern: Seq<char>, text: Seq<char>) -> Seq<(usize, usize)>;

/// `Regex::new` compiles a pattern or reports an error; which of the two
/// depends on the pattern alone.
pub assume_specification[ regex::Regex::new ](re: &str) -> (result: Result<
    regex::Regex,
    regex::Error,
>)
    ensures
        result is Ok <==> regex_compiles(re@),
        result matches Ok(regex) ==> regex_source(regex) == Some(re@),
;

/// `Regex::find_iter` yields the successive matches in the text, which do not
/// overlap. A match is a range of whole characters. What matches depends on the
/// pattern and the text alone.
#[verifier::external_body]
pub(crate) fn find_spans(regex: &regex::Regex, text: &str) -> (spans: Vec<(usize, usize)>)
    requires
        regex_source(*regex) is Some,
    ensures
        spans@ == regex_spans(regex_source(*regex)->0, text@),
        forall|i: int|
            0 <= i < spans@.len() ==> {
                &&& (#[trigger] spans@[i]).0 <= spans@[i].1 <= encode_utf8(text@).len()
                &&& is_char_boundary(encode_utf8(text@), spans@[i].0 as int)
                &&& is_char_boundary(encode_utf8(text@), spans@[i].1 as int)
            },
        forall|i: int, j: int|
            0 <= i < j < spans@.len() ==> (#[trigger] spans@[i]).1 <= (#[trigger] spans@[j]).0,
{
    regex.find_iter(text).map(|m| (m.start(), m.end())).collect()
}

/// The characters with a meaning of their own in a pattern.
pub open spec fn meta_character(c: char) -> bool {
    ||| c == '\\' || c == '.' || c == '+' || c == '*' || c == '?' || c == '(' || c == ')'
    ||| c == '|' || c == '[' || c == ']' || c == '{' || c == '}' || c == '^' || c == '$'
    ||| c == '#' || c == '&' || c == '-' || c == '~'
}

/// `text` with a backslash before each meta character.
pub open spec fn escaped(text: Seq<char>) -> Seq<char>
    decreases text.len(),
{
    if text.len() == 0 {
        text
    } else if meta_character(text.last()) {
        escaped(text.drop_last()).push('\\').push(text.last())
    } else {
        escaped(text.drop_last()).push(text.last())
    }
}

/// `regex::escape` puts a backslash before each meta character and changes
/// nothing else.
pub assume_specification[ regex::escape ](pattern: &str) -> (result: String)
    ensures
        result@ == escaped(pattern@),
;

} // verus!
