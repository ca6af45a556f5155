//! Validation of the user-facing configuration strings: names, descriptions
//! and HTML colors. File-existence checks live with the caller that owns the
//! filesystem.

use crate::strutil::is_digit;
use vstd::prelude::*;

verus! {

/// The rejection message for a value of an unexpected format.
pub open spec fn sp_invalid_format_msg(s: Seq<char>) -> Seq<char> {
    "'"@ + s + "' has invalid format, run --help to see format."@
}

fn invalid_format_msg(s: &str) -> (r: String)
    ensures
        r@ == sp_invalid_format_msg(s@),
{
    proof {
        reveal_strlit("'");
        reveal_strlit("' has invalid format, run --help to see format.");
    }
    let mut msg: String = "'".to_owned();
    msg.append(s);
    msg.append("' has invalid format, run --help to see format.");
    proof {
        assert(msg@ =~= sp_invalid_format_msg(s@));
    }
    msg
}

/// A dictionary name may hold at most 64 bytes.
pub fn validate_name(s: &str) -> (r: Result<(), String>)
    requires
        vstd::utf8::encode_utf8(s@).len() <= usize::MAX,
    ensures
        match r {
            Ok(()) => vstd::utf8::encode_utf8(s@).len() < 65,
            Err(e) => vstd::utf8::encode_utf8(s@).len() >= 65 && e@ == sp_invalid_format_msg(s@),
        },
{
    if s.len() < 65 {
        Ok(())
    } else {
        Err(invalid_format_msg(s))
    }
}

/// A dictionary description may hold at most 256 bytes.
pub fn validate_description(s: &str) -> (r: Result<(), String>)
    requires
        vstd::utf8::encode_utf8(s@).len() <= usize::MAX,
    ensures
        match r {
            Ok(()) => vstd::utf8::encode_utf8(s@).len() < 257,
            Err(e) => vstd::utf8::encode_utf8(s@).len() >= 257 && e@ == sp_invalid_format_msg(s@),
        },
{
    if s.len() < 257 {
        Ok(())
    } else {
        Err(invalid_format_msg(s))
    }
}

/// A word character of a short name: an ASCII letter, a digit, or an
/// underscore.
pub open spec fn sp_is_word_char(c: char) -> bool {
    ||| 97 <= c as u32 && c as u32 <= 122
    ||| 65 <= c as u32 && c as u32 <= 90
    ||| is_digit(c)
    ||| c == '_'
}

/// A well-formed short name: a lower-case ASCII letter followed by two to
/// nine word characters.
pub open spec fn sp_valid_short_name(s: Seq<char>) -> bool {
    &&& 3 <= s.len() <= 10
    &&& 97 <= s[0] as u32 <= 122
    &&& forall|i: int| 1 <= i < s.len() ==> sp_is_word_char(#[trigger] s[i])
}

/// A short name must be three to ten characters, lower-case-letter first,
/// then letters, digits or underscores.
pub fn validate_short_name(s: &str) -> (r: Result<(), String>)
    ensures
        match r {
            Ok(()) => sp_valid_short_name(s@),
            Err(e) => !sp_valid_short_name(s@) && e@ == sp_invalid_format_msg(s@),
        },
{
    let n: usize = s.unicode_len();
    if n < 3 || n > 10 {
        return Err(invalid_format_msg(s));
    }
    let c0: u32 = s.get_char(0) as u32;
    if !(97 <= c0 && c0 <= 122) {
        return Err(invalid_format_msg(s));
    }
    let mut i: usize = 1;
    while i < n
        invariant
            1 <= i <= n,
            n == s@.len(),
            forall|k: int| 1 <= k < i ==> sp_is_word_char(#[trigger] s@[k]),
        decreases n - i,
    {
        let c = s.get_char(i);
        let v: u32 = c as u32;
        if !(97 <= v && v <= 122 || 65 <= v && v <= 90 || 48 <= v && v <= 57 || c == '_') {
            return Err(invalid_format_msg(s));
        }
        i = i + 1;
    }
    Ok(())
}

pub open spec fn sp_is_hex_digit(c: char) -> bool {
    ||| is_digit(c)
    ||| 97 <= c as u32 && c as u32 <= 102
    ||| 65 <= c as u32 && c as u32 <= 70
}

/// A well-formed HTML color: `#` followed by three or six hex digits.
pub open spec fn sp_valid_html_color(s: Seq<char>) -> bool {
    &&& (s.len() == 4 || s.len() == 7)
    &&& s[0] == '#'
    &&& forall|i: int| 1 <= i < s.len() ==> sp_is_hex_digit(#[trigger] s[i])
}

/// A color must be written `#XXX` or `#XXXXXX` in hex digits.
pub fn validate_html_color(s: &str) -> (r: Result<(), String>)
    ensures
        match r {
            Ok(()) => sp_valid_html_color(s@),
            Err(e) => !sp_valid_html_color(s@) && e@ == sp_invalid_format_msg(s@),
        },
{
    let n: usize = s.unicode_len();
    if !(n == 4 || n == 7) {
        return Err(invalid_format_msg(s));
    }
    if s.get_char(0) != '#' {
        return Err(invalid_format_msg(s));
    }
    let mut i: usize = 1;
    while i < n
        invariant
            1 <= i <= n,
            n == s@.len(),
            forall|k: int| 1 <= k < i ==> sp_is_hex_digit(#[trigger] s@[k]),
        decreases n - i,
    {
        let c = s.get_char(i);
        let v: u32 = c as u32;
        if !(48 <= v && v <= 57 || 97 <= v && v <= 102 || 65 <= v && v <= 70) {
            return Err(invalid_format_msg(s));
        }
        i = i + 1;
    }
    Ok(())
}

} // verus!
