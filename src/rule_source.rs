//! Clean-up of rule pattern text as stored in the catalogue, before the
//! caller compiles it: stored patterns may end in stray whitespace.
use vstd::prelude::*;

verus! {

/// A character of the Unicode `White_Space` property, which the class
/// `\s` of a regular expression matches.
pub open spec fn is_white_space(c: char) -> bool {
    let n = c as u32;
    ||| 0x09 <= n <= 0x0d
    ||| n == 0x20
    ||| n == 0x85
    ||| n == 0xa0
    ||| n == 0x1680
    ||| 0x2000 <= n <= 0x200a
    ||| n == 0x2028
    ||| n == 0x2029
    ||| n == 0x202f
    ||| n == 0x205f
    ||| n == 0x3000
}

/// `text` with a single trailing whitespace character removed, as replacing
/// the match of the pattern `\s?$` with nothing does.
pub open spec fn without_trailing_space(text: Seq<char>) -> Seq<char> {
    if text.len() > 0 && is_white_space(text.last()) {
        text.drop_last()
    } else {
        text
    }
}

/// `text` without one final ' ', if it ends in one.
pub open spec fn without_final_blank(text: Seq<char>) -> Seq<char> {
    if text.len() > 0 && text.last() == ' ' {
        text.drop_last()
    } else {
        text
    }
}

/// Relies on regex::Regex::replace with the pattern `\s?$` and an empty
/// replacement: the leftmost match is a `White_Space` character ending the
/// text, or the empty string at its end, so at most that one last
/// character goes.
#[verifier::external_body]
fn strip_trailing_space(text: &str) -> (r: String)
    ensures
        r@ == without_trailing_space(text@),
{
    regex::Regex::new(r"\s?$").unwrap().replace(text, "").into_owned()
}

/// `text` without one final ' ', if it ends in one.
pub fn drop_final_blank(text: &str) -> (r: String)
    ensures
        r@ == without_final_blank(text@),
{
    let n = text.unicode_len();
    if n > 0 && text.get_char(n - 1) == ' ' {
        text.substring_char(0, n - 1).to_owned()
    } else {
        text.to_owned()
    }
}

/// The pattern text of a client, os or device-class rule: one trailing
/// whitespace character removed, then one more trailing ' ' if present.
pub fn trim_rule_source(raw: &str) -> (r: String)
    ensures
        r@ == without_final_blank(without_trailing_space(raw@)),
        raw@.len() > 0 && raw@.last() == ' ' ==> r@ == without_final_blank(raw@.drop_last()),
        r@ == raw@ || (raw@.len() > 0 && r@.len() < raw@.len()),
{
    let stripped = strip_trailing_space(raw);
    drop_final_blank(stripped.as_str())
}

/// The pattern text of a device-name rule: one trailing whitespace
/// character removed.
pub fn trim_device_name_source(raw: &str) -> (r: String)
    ensures
        r@ == without_trailing_space(raw@),
        raw@.len() > 0 && raw@.last() == ' ' ==> r@ == raw@.drop_last(),
        r@ == raw@ || (raw@.len() > 0 && r@.len() < raw@.len()),
{
    strip_trailing_space(raw)
}

} // verus!
