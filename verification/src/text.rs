//! Text handling: trimming of visible content and the canonical record of a
//! tool call.

use vstd::prelude::*;
use vstd::string::*;

verus! {

/// Whether `c` has the Unicode property `White_Space`.
pub uninterp spec fn is_white_space(c: char) -> bool;

/// `text` without its leading white space.
pub open spec fn without_leading_space(text: Seq<char>) -> Seq<char>
    decreases text.len(),
{
    if text.len() > 0 && is_white_space(text.first()) {
        without_leading_space(text.drop_first())
    } else {
        text
    }
}

/// `text` without its trailing white space.
pub open spec fn without_trailing_space(text: Seq<char>) -> Seq<char>
    decreases text.len(),
{
    if text.len() > 0 && is_white_space(text.last()) {
        without_trailing_space(text.drop_last())
    } else {
        text
    }
}

/// `text` without leading and trailing white space.
pub open spec fn trimmed(text: Seq<char>) -> Seq<char> {
    without_trailing_space(without_leading_space(text))
}

/// `str::trim` hands back the part of the text left when all leading and all
/// trailing characters with the property `White_Space` are taken off; that
/// part neither starts nor ends with such a character.
pub assume_specification[ str::trim ](text: &str) -> (core: &str)
    ensures
        core@ == trimmed(text@),
        core@.len() > 0 ==> !is_white_space(core@.first()) && !is_white_space(core@.last()),
;

/// The canonical record of a tool call: a JSON object with the name as a
/// string and the arguments as they came, already serialized.
pub open spec fn call_record(name: Seq<char>, arguments: Seq<char>) -> Seq<char> {
    "{\"name\":\""@ + name + "\",\"arguments\":"@ + arguments + "}"@
}

/// Encodes a tool call as its canonical record.
pub fn encode_call(name: &str, arguments: &str) -> (record: String)
    ensures
        record@ == call_record(name@, arguments@),
{
    let mut record = String::from_str("{\"name\":\"");
    record.append(name);
    record.append("\",\"arguments\":");
    record.append(arguments);
    record.append("}");
    record
}

/// The visible part of a round's content: the content, trimmed.
pub fn visible(content: &str) -> (shown: String)
    ensures
        shown@ == trimmed(content@),
{
    content.trim().to_owned()
}

} // verus!
