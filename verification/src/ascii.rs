use vstd::prelude::*;
use vstd::string::*;

use crate::text::push_char;

verus! {

/// A character that fits in seven bits, i.e. an ASCII character.
pub open spec fn seven_bit(c: char) -> bool {
    (c as u32) < 128
}

/// What `{:?}` writes for a string slice: the text in double quotes, with
/// std's escapes.  It is a function of the text alone.
pub uninterp spec fn str_debug_text(s: Seq<char>) -> Seq<char>;

/// The outcome of reading an option value that must be one ASCII character:
/// the byte of that character, or the message that explains the refusal.
pub open spec fn ascii_byte_outcome(s: Seq<char>) -> Result<u8, Seq<char>> {
    if s.len() == 1 && seven_bit(s[0]) {
        Ok((s[0] as u32) as u8)
    } else if s.len() == 1 {
        Err(seq!['\'', s[0]] + "' is not an ASCII character"@)
    } else {
        Err(str_debug_text(s) + " must be a single ASCII character"@)
    }
}

/// A value is accepted exactly when it is one ASCII character, and then
/// the byte read is that character's code.
pub proof fn law_ascii_byte_accepts_exactly_one_ascii_char(s: Seq<char>)
    ensures
        ascii_byte_outcome(s) is Ok <==> (s.len() == 1 && seven_bit(s[0])),
        ascii_byte_outcome(s) matches Ok(b) ==> b as u32 == s[0] as u32 && b < 128,
{
}

/// Writes `s` as `{:?}` does.
///
/// Calls std's `Debug` formatting for `str` through `format!`; the contract
/// only names the result, as a function of the text.
#[verifier::external_body]
fn debug_text(s: &str) -> (t: String)
    ensures
        t@ == str_debug_text(s@),
{
    format!("{s:?}")
}

/// Reads a command-line value that must be exactly one ASCII character and
/// gives its byte (used for the delimiter, quote and escape options).
pub fn parse_ascii_byte(s: &str) -> (r: Result<u8, String>)
    ensures
        match r {
            Ok(b) => ascii_byte_outcome(s@) == Ok::<u8, Seq<char>>(b),
            Err(m) => ascii_byte_outcome(s@) == Err::<u8, Seq<char>>(m@),
        },
{
    let n = s.unicode_len();
    if n == 1 {
        let c = s.get_char(0);
        if (c as u32) < 128 {
            let code: u32 = c as u32;
            Ok(code as u8)
        } else {
            let mut m = String::from_str("'");
            proof {
                reveal_strlit("'");
            }
            assert(m@ == seq!['\'']);
            push_char(&mut m, c);
            m.append("' is not an ASCII character");
            assert(m@ =~= seq!['\'', c] + "' is not an ASCII character"@);
            Err(m)
        }
    } else {
        let mut m = debug_text(s);
        m.append(" must be a single ASCII character");
        Err(m)
    }
}

} // verus!
